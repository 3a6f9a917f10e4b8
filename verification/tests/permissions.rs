use ccx::permissions::{
    answer_allows, ensure_workspace_path, PermissionDecision, PermissionEngine, PermissionProfile, ResolvedPaths,
};

fn inside() -> ResolvedPaths {
    ResolvedPaths {
        path: vec!["/".to_string(), "w".to_string(), "src".to_string(), "a.rs".to_string()],
        workspace: vec!["/".to_string(), "w".to_string()],
        workspace_display: "/w".to_string(),
    }
}

fn outside() -> ResolvedPaths {
    ResolvedPaths {
        path: vec!["/".to_string(), "etc".to_string(), "passwd".to_string()],
        workspace: vec!["/".to_string(), "w".to_string()],
        workspace_display: "/w".to_string(),
    }
}

fn engine(profile: PermissionProfile, interactive: bool) -> PermissionEngine {
    PermissionEngine::new(profile, "/w".to_string(), interactive)
}

#[test]
fn profiles_parse_by_name() {
    assert_eq!(PermissionProfile::parse("read-only"), PermissionProfile::ReadOnly);
    assert_eq!(PermissionProfile::parse("workspace-write"), PermissionProfile::WorkspaceWrite);
    assert_eq!(PermissionProfile::parse("danger-full-access"), PermissionProfile::DangerFullAccess);
    assert_eq!(PermissionProfile::parse("whatever"), PermissionProfile::Ask);
}

#[test]
fn read_only_denies_writes_and_shell() {
    let e = engine(PermissionProfile::ReadOnly, true);
    assert_eq!(
        e.check_write_path("src/a.rs", &inside()),
        PermissionDecision::Deny("write denied by read-only permission profile".to_string())
    );
    assert_eq!(
        e.check_shell("ls"),
        PermissionDecision::Deny("shell denied by read-only permission profile".to_string())
    );
}

#[test]
fn ask_profile_asks_at_a_terminal_and_denies_without_one() {
    assert_eq!(
        engine(PermissionProfile::Ask, true).check_write_path("src/a.rs", &inside()),
        PermissionDecision::Ask("Allow file write to src/a.rs?".to_string())
    );
    assert_eq!(
        engine(PermissionProfile::Ask, false).check_shell("cargo test"),
        PermissionDecision::Deny("Allow shell command `cargo test`? denied in non-interactive mode".to_string())
    );
}

#[test]
fn writes_stay_in_the_workspace() {
    let e = engine(PermissionProfile::WorkspaceWrite, true);
    assert_eq!(e.check_write_path("src/a.rs", &inside()), PermissionDecision::Allow);
    assert_eq!(
        e.check_write_path("/etc/passwd", &outside()),
        PermissionDecision::Deny("path /etc/passwd is outside workspace /w".to_string())
    );
    assert!(matches!(e.check_shell("ls"), PermissionDecision::Ask(_)));
    assert_eq!(engine(PermissionProfile::FullAccess, true).check_shell("ls"), PermissionDecision::Allow);
    assert_eq!(
        engine(PermissionProfile::DangerFullAccess, false).check_write_path("/etc/passwd", &outside()),
        PermissionDecision::Allow
    );
    assert!(ensure_workspace_path("src/a.rs", &inside()).is_ok());
    assert!(e.check_read_path("/etc/passwd", &outside()).is_err());
    assert!(engine(PermissionProfile::DangerFullAccess, true).check_read_path("/etc/passwd", &outside()).is_ok());
}

#[test]
fn answers_that_allow() {
    assert!(answer_allows(" y\n"));
    assert!(answer_allows("YES"));
    assert!(!answer_allows("no"));
    assert!(!answer_allows("Yes"));
}

fn resolved(path: &[&str]) -> ResolvedPaths {
    ResolvedPaths {
        path: path.iter().map(|c| c.to_string()).collect(),
        workspace: vec!["/".to_string(), "w".to_string()],
        workspace_display: "/w".to_string(),
    }
}

#[test]
fn writes_cannot_climb_out_of_the_workspace() {
    let engine = engine(PermissionProfile::WorkspaceWrite, false);
    let climbing = resolved(&["/", "w", "a", "b", "..", "..", "..", "etc", "x"]);
    assert_eq!(
        engine.check_write_path("a/b/../../../etc/x", &climbing),
        PermissionDecision::Deny("path a/b/../../../etc/x is outside workspace /w".to_string())
    );
    let staying = resolved(&["/", "w", "a", "..", "src", "x.rs"]);
    assert_eq!(engine.check_write_path("a/../src/x.rs", &staying), PermissionDecision::Allow);
    let above_root = resolved(&["/", "..", "w", "x"]);
    assert_eq!(engine.check_write_path("/../w/x", &above_root), PermissionDecision::Allow);
    let leading = ResolvedPaths {
        path: vec!["..".to_string(), "x".to_string()],
        workspace: vec!["..".to_string()],
        workspace_display: "..".to_string(),
    };
    assert!(ensure_workspace_path("../x", &leading).is_err());
}
