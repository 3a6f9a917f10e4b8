use ccx::safety::{classify_command, ensure_not_protected, CommandRisk};

#[test]
fn classifies_common_command_risks() {
    assert_eq!(classify_command("cargo test"), CommandRisk::ReadOnly);
    assert_eq!(classify_command("npm install"), CommandRisk::PackageInstall);
    assert_eq!(classify_command("git clean -fdx"), CommandRisk::Destructive);
    assert_eq!(classify_command("curl https://example.com"), CommandRisk::Network);
}

#[test]
fn more_severe_classes_win() {
    assert_eq!(classify_command("SUDO rm -rf /"), CommandRisk::Privilege);
    assert_eq!(classify_command("cat ~/.ssh/id_rsa"), CommandRisk::Credential);
    assert_eq!(classify_command("cat ~ /. ssh/config"), CommandRisk::Credential);
    assert_eq!(classify_command("echo hi > out.txt"), CommandRisk::Write);
    assert_eq!(classify_command("git status"), CommandRisk::ReadOnly);
    assert_eq!(CommandRisk::PackageInstall.as_str(), "package-install");
}

#[test]
fn denies_protected_paths() {
    let workspace = "C:/work/project";
    assert!(ensure_not_protected(".git/config", workspace, false, None).is_err());
    assert!(ensure_not_protected("src/main.rs", workspace, false, None).is_ok());
}

#[test]
fn protection_messages_name_the_rule() {
    assert_eq!(
        ensure_not_protected(".git/config", "/w", false, None),
        Err("protected path denied: .git/config".to_string())
    );
    assert_eq!(
        ensure_not_protected("/home/me/.SSH/config", "/w", false, None),
        Err("protected path denied: /home/me/.SSH/config".to_string())
    );
    assert_eq!(ensure_not_protected("app/.env", "/w", false, None), Err("credential path denied: app/.env".to_string()));
    assert_eq!(ensure_not_protected("/etc/passwd", "/w", false, None), Err("system path denied: /etc/passwd".to_string()));
    assert_eq!(ensure_not_protected("/etc/passwd", "/w", true, None), Ok(()));
    assert_eq!(ensure_not_protected("docs/readme.md", "/w", false, None), Ok(()));
}

#[test]
fn windows_paths_follow_the_windows_rules() {
    let root = Some("C:\\Windows");
    let workspace = "C:\\work\\project";
    assert!(ensure_not_protected(".git/config", "C:/work/project", false, root).is_err());
    assert!(ensure_not_protected("src/main.rs", "C:/work/project", false, root).is_ok());
    assert_eq!(
        ensure_not_protected("src\\.git\\config", workspace, false, root),
        Err("protected path denied: src\\.git\\config".to_string())
    );
    assert_eq!(
        ensure_not_protected("C:\\Users\\me\\.SSH\\id", workspace, false, root),
        Err("protected path denied: C:\\Users\\me\\.SSH\\id".to_string())
    );
    assert_eq!(
        ensure_not_protected("c:\\windows\\system32\\drivers", workspace, false, root),
        Err("system path denied: c:\\windows\\system32\\drivers".to_string())
    );
    assert_eq!(
        ensure_not_protected("\\Program Files\\App\\x.dll", workspace, false, root),
        Err("system path denied: \\Program Files\\App\\x.dll".to_string())
    );
    assert_eq!(
        ensure_not_protected("..\\..\\..\\Windows\\win.ini", workspace, false, root),
        Err("system path denied: ..\\..\\..\\Windows\\win.ini".to_string())
    );
    assert_eq!(ensure_not_protected("/etc/passwd", workspace, false, root), Ok(()));
    assert_eq!(ensure_not_protected("docs\\readme.md", workspace, false, root), Ok(()));
    assert_eq!(ensure_not_protected("C:\\Windows\\x", workspace, true, root), Ok(()));
}
