//! Shell command risk scoring and the protected-path policy.
use vstd::prelude::*;
use crate::text::{chars_of, contains, contains_str, lower, to_lower};

verus! {

/// How risky a shell command looks.
#[derive(Debug, Clone, Copy, PartialEq, Eq, Structural)]
pub enum CommandRisk {
    ReadOnly,
    Write,
    Network,
    PackageInstall,
    Destructive,
    Credential,
    Privilege,
}

/// The views of a sequence of string slices.
pub open spec fn str_views(v: Seq<&str>) -> Seq<Seq<char>> {
    v.map_values(|x: &str| x@)
}

/// Some needle occurs in `value`.
pub open spec fn any_contains(value: Seq<char>, needles: Seq<Seq<char>>) -> bool {
    exists|i: int| 0 <= i < needles.len() && #[trigger] contains(value, needles[i])
}

pub fn contains_any(value: &Vec<char>, needles: &Vec<&str>) -> (r: bool)
    ensures
        r == any_contains(value@, str_views(needles@)),
{
    let mut i: usize = 0;
    while i < needles.len()
        invariant
            i <= needles.len(),
            forall|k: int| 0 <= k < i ==> !contains(value@, #[trigger] str_views(needles@)[k]),
        decreases needles.len() - i,
    {
        if contains_str(value, needles[i]) {
            assert(contains(value@, str_views(needles@)[i as int]));
            return true;
        }
        i = i + 1;
    }
    false
}

/// Needles that mark a command as needing elevated privileges.
pub open spec fn privilege_needles() -> Seq<Seq<char>> {
    seq!["sudo "@, "runas "@, "set-executionpolicy"@, "takeown "@]
}

/// Needles that mark a command as touching credentials.
pub open spec fn credential_needles() -> Seq<Seq<char>> {
    seq![" ssh "@, "ssh-key"@, "id_rsa"@, "id_ed25519"@, "token"@, "secret"@]
}

/// Needles looked for in the command with its spaces removed.
pub open spec fn credential_compact_needles() -> Seq<Seq<char>> {
    seq!["cat~/.ssh"@, "type%userprofile%\\.ssh"@]
}

pub open spec fn destructive_needles() -> Seq<Seq<char>> {
    seq!["rm -rf"@, "git clean"@, "format "@, "del /s"@, "remove-item"@, "rd /s"@, "rmdir /s"@]
}

pub open spec fn package_needles() -> Seq<Seq<char>> {
    seq![
        "npm install"@,
        "pnpm add"@,
        "yarn add"@,
        "cargo install"@,
        "pip install"@,
        "uv add"@,
        "winget install"@,
        "choco install"@,
    ]
}

pub open spec fn network_needles() -> Seq<Seq<char>> {
    seq![
        "curl "@,
        "wget "@,
        "invoke-webrequest"@,
        "irm "@,
        "git clone"@,
        "git fetch"@,
        "git pull"@,
    ]
}

pub open spec fn write_needles() -> Seq<Seq<char>> {
    seq![
        ">"@,
        "out-file"@,
        "set-content"@,
        "add-content"@,
        "new-item"@,
        "move-item"@,
        "copy-item"@,
        "git commit"@,
        "git add"@,
        "cargo fmt"@,
        "rustfmt"@,
    ]
}

/// The text with every occurrence of `c` removed.
pub open spec fn remove_char(s: Seq<char>, c: char) -> Seq<char>
    decreases s.len(),
{
    if s.len() == 0 {
        s
    } else if s.last() == c {
        remove_char(s.drop_last(), c)
    } else {
        remove_char(s.drop_last(), c).push(s.last())
    }
}

pub fn remove_char_exec(s: &Vec<char>, c: char) -> (r: Vec<char>)
    ensures
        r@ == remove_char(s@, c),
{
    let mut r: Vec<char> = Vec::new();
    let mut i: usize = 0;
    while i < s.len()
        invariant
            i <= s.len(),
            r@ == remove_char(s@.take(i as int), c),
        decreases s.len() - i,
    {
        assert(s@.take(i + 1).drop_last() =~= s@.take(i as int));
        if s[i] != c {
            r.push(s[i]);
        }
        i = i + 1;
    }
    assert(s@.take(s.len() as int) =~= s@);
    r
}

/// The risk class of a shell command: the first class, from the most to
/// the least severe, one of whose needles occurs in the lower-cased command.
pub open spec fn command_risk(command: Seq<char>) -> CommandRisk {
    let lowered = lower(command);
    let compact = remove_char(lowered, ' ');
    if any_contains(lowered, privilege_needles()) {
        CommandRisk::Privilege
    } else if any_contains(lowered, credential_needles()) || any_contains(
        compact,
        credential_compact_needles(),
    ) {
        CommandRisk::Credential
    } else if any_contains(lowered, destructive_needles()) {
        CommandRisk::Destructive
    } else if any_contains(lowered, package_needles()) {
        CommandRisk::PackageInstall
    } else if any_contains(lowered, network_needles()) {
        CommandRisk::Network
    } else if any_contains(lowered, write_needles()) {
        CommandRisk::Write
    } else {
        CommandRisk::ReadOnly
    }
}

/// Scores how risky a shell command is.
pub fn classify_command(command: &str) -> (r: CommandRisk)
    ensures
        r == command_risk(command@),
{
    let raw = chars_of(command);
    let lowered = to_lower(&raw);
    let compact = remove_char_exec(&lowered, ' ');

    let privilege = vec!["sudo ", "runas ", "set-executionpolicy", "takeown "];
    assert(str_views(privilege@) =~= privilege_needles());
    if contains_any(&lowered, &privilege) {
        return CommandRisk::Privilege;
    }
    let credential = vec![" ssh ", "ssh-key", "id_rsa", "id_ed25519", "token", "secret"];
    assert(str_views(credential@) =~= credential_needles());
    let credential_compact = vec!["cat~/.ssh", "type%userprofile%\\.ssh"];
    assert(str_views(credential_compact@) =~= credential_compact_needles());
    if contains_any(&lowered, &credential) || contains_any(&compact, &credential_compact) {
        return CommandRisk::Credential;
    }
    let destructive = vec![
        "rm -rf",
        "git clean",
        "format ",
        "del /s",
        "remove-item",
        "rd /s",
        "rmdir /s",
    ];
    assert(str_views(destructive@) =~= destructive_needles());
    if contains_any(&lowered, &destructive) {
        return CommandRisk::Destructive;
    }
    let package = vec![
        "npm install",
        "pnpm add",
        "yarn add",
        "cargo install",
        "pip install",
        "uv add",
        "winget install",
        "choco install",
    ];
    assert(str_views(package@) =~= package_needles());
    if contains_any(&lowered, &package) {
        return CommandRisk::PackageInstall;
    }
    let network = vec![
        "curl ",
        "wget ",
        "invoke-webrequest",
        "irm ",
        "git clone",
        "git fetch",
        "git pull",
    ];
    assert(str_views(network@) =~= network_needles());
    if contains_any(&lowered, &network) {
        return CommandRisk::Network;
    }
    let write = vec![
        ">",
        "out-file",
        "set-content",
        "add-content",
        "new-item",
        "move-item",
        "copy-item",
        "git commit",
        "git add",
        "cargo fmt",
        "rustfmt",
    ];
    assert(str_views(write@) =~= write_needles());
    if contains_any(&lowered, &write) {
        return CommandRisk::Write;
    }
    CommandRisk::ReadOnly
}

impl CommandRisk {
    /// The kebab-case label of the risk.
    pub open spec fn label(self) -> Seq<char> {
        match self {
            CommandRisk::ReadOnly => "read-only"@,
            CommandRisk::Write => "write"@,
            CommandRisk::Network => "network"@,
            CommandRisk::PackageInstall => "package-install"@,
            CommandRisk::Destructive => "destructive"@,
            CommandRisk::Credential => "credential"@,
            CommandRisk::Privilege => "privilege"@,
        }
    }

    /// The kebab-case label of the risk, as it is displayed.
    pub fn as_str(&self) -> (r: &'static str)
        ensures
            r@ == self.label(),
    {
        match self {
            CommandRisk::ReadOnly => "read-only",
            CommandRisk::Write => "write",
            CommandRisk::Network => "network",
            CommandRisk::PackageInstall => "package-install",
            CommandRisk::Destructive => "destructive",
            CommandRisk::Credential => "credential",
            CommandRisk::Privilege => "privilege",
        }
    }
}

// ---------------------------------------------------------------------------
// Protected paths
// ---------------------------------------------------------------------------

/// The named components of a path with `.` dropped and each `..` taking
/// back the component before it (`/`-separated paths).
pub open spec fn normalized_names(segments: Seq<Seq<char>>) -> Seq<Seq<char>>
    decreases segments.len(),
{
    if segments.len() == 0 {
        seq![]
    } else {
        let prev = normalized_names(segments.drop_last());
        let seg = segments.last();
        if seg.len() == 0 || seg == "."@ {
            prev
        } else if seg == ".."@ {
            if prev.len() > 0 {
                prev.drop_last()
            } else {
                prev
            }
        } else {
            prev.push(seg)
        }
    }
}

/// The drive prefix of a Windows path (empty where it has none).
pub open spec fn drive_of(p: Seq<char>, windows: bool) -> Seq<char> {
    if windows && crate::config::has_drive(p) {
        p.take(2)
    } else {
        seq![]
    }
}

/// A Windows path after its drive prefix.
pub open spec fn after_drive(p: Seq<char>, windows: bool) -> Seq<char> {
    if windows && crate::config::has_drive(p) {
        p.skip(2)
    } else {
        p
    }
}

/// Backslashes turned into slashes.
pub open spec fn forward_slashes(p: Seq<char>) -> Seq<char> {
    p.map_values(|c: char| if c == '\\' { '/' } else { c })
}

/// Where a path lies once it is read against the workspace:
/// `workspace.join(path)` (see [`crate::config::join_path`]).
pub open spec fn policy_absolute(path: Seq<char>, workspace: Seq<char>, windows: bool) -> Seq<char> {
    crate::config::join_path(workspace, path, windows)
}

/// The named components of a path (after any drive prefix), `.` dropped and
/// `..` resolved; on Windows both `/` and `\\` separate components.
pub open spec fn policy_names(path: Seq<char>, windows: bool) -> Seq<Seq<char>> {
    let rest = after_drive(path, windows);
    normalized_names(
        crate::text::split_on(
            if windows {
                forward_slashes(rest)
            } else {
                rest
            },
            '/',
        ),
    )
}

/// The platform's separator.
pub open spec fn separator_text(windows: bool) -> Seq<char> {
    if windows {
        "\\"@
    } else {
        "/"@
    }
}

/// The path in normal form, as text: the drive prefix, the root when the
/// path has one, then the named components joined by the platform's
/// separator.
pub open spec fn normalized_text(path: Seq<char>, windows: bool) -> Seq<char> {
    let rest = after_drive(path, windows);
    drive_of(path, windows) + (if rest.len() > 0 && crate::config::is_separator(rest[0], windows) {
        separator_text(windows)
    } else {
        seq![]
    }) + crate::text::join(policy_names(path, windows), separator_text(windows))
}

/// A path read against the workspace (see [`policy_absolute`]).
pub fn absolute_path(path: &str, workspace: &str, windows: bool) -> (r: Vec<char>)
    ensures
        r@ == policy_absolute(path@, workspace@, windows),
{
    crate::config::join_path_exec(&chars_of(workspace), path, windows)
}

/// Backslashes turned into slashes.
pub fn forward_slashes_exec(p: &Vec<char>) -> (r: Vec<char>)
    ensures
        r@ == forward_slashes(p@),
{
    let mut out: Vec<char> = Vec::new();
    let mut i: usize = 0;
    while i < p.len()
        invariant
            i <= p@.len(),
            out@ == forward_slashes(p@.take(i as int)),
        decreases p.len() - i,
    {
        assert(forward_slashes(p@.take(i + 1)) =~= forward_slashes(p@.take(i as int)).push(
            if p@[i as int] == '\\' {
                '/'
            } else {
                p@[i as int]
            },
        ));
        out.push(if p[i] == '\\' { '/' } else { p[i] });
        i = i + 1;
    }
    assert(p@.take(p@.len() as int) =~= p@);
    out
}

/// Normalizes a path for the policy: `.` dropped, `..` resolved; gives the
/// named components and the normal text.
pub fn normalize_for_policy(path: &str, windows: bool) -> (r: (Vec<Vec<char>>, String))
    ensures
        crate::text::views(r.0@) == policy_names(path@, windows),
        r.1@ == normalized_text(path@, windows),
{
    let p = chars_of(path);
    let drive_here = windows && p.len() >= 2 && (('a' <= p[0] && p[0] <= 'z') || ('A' <= p[0] && p[0] <= 'Z'))
        && p[1] == ':';
    let drive = if drive_here {
        crate::text::slice_chars(&p, 0, 2)
    } else {
        Vec::new()
    };
    let rest = if drive_here {
        crate::text::slice_chars(&p, 2, p.len())
    } else {
        p.clone()
    };
    assert(drive@ =~= drive_of(path@, windows));
    assert(rest@ =~= after_drive(path@, windows));
    let split_text = if windows {
        forward_slashes_exec(&rest)
    } else {
        rest.clone()
    };
    let segs = crate::text::split_on_exec(&split_text, '/');
    let ghost sv = crate::text::views(segs@);
    let mut names: Vec<Vec<char>> = Vec::new();
    let mut i: usize = 0;
    while i < segs.len()
        invariant
            i <= segs@.len(),
            sv == crate::text::views(segs@),
            crate::text::views(names@) == normalized_names(sv.take(i as int)),
        decreases segs.len() - i,
    {
        assert(sv.take(i + 1).drop_last() =~= sv.take(i as int));
        assert(sv.take(i + 1).last() == segs@[i as int]@);
        let seg = &segs[i];
        if seg.len() == 0 || crate::text::eq_str(seg, ".") {
        } else if crate::text::eq_str(seg, "..") {
            if names.len() > 0 {
                let ghost before = crate::text::views(names@);
                names.pop();
                assert(crate::text::views(names@) =~= before.drop_last());
            }
        } else {
            let ghost before = crate::text::views(names@);
            let piece = crate::text::slice_chars(seg, 0, seg.len());
            assert(piece@ =~= seg@);
            names.push(piece);
            assert(crate::text::views(names@) =~= before.push(seg@));
        }
        i = i + 1;
    }
    assert(sv.take(segs@.len() as int) =~= sv);
    let sep = if windows {
        "\\"
    } else {
        "/"
    };
    let joined = crate::text::join_chars(&names, sep);
    let mut text = drive;
    if rest.len() > 0 && (rest[0] == '/' || (windows && rest[0] == '\\')) {
        crate::text::push_str(&mut text, sep);
    }
    crate::text::push_all(&mut text, &joined);
    (names, crate::text::string_of(&text))
}

/// The names no path may pass through.
pub open spec fn protected_name(name: Seq<char>) -> bool {
    let n = lower(name);
    n == ".git"@ || n == ".hg"@ || n == ".svn"@ || n == ".ssh"@ || n == ".gnupg"@ || n == "id_rsa"@
        || n == "id_ed25519"@ || n == "known_hosts"@ || n == "credentials"@
}

pub open spec fn any_protected(names: Seq<Seq<char>>) -> bool {
    exists|i: int| 0 <= i < names.len() && protected_name(#[trigger] names[i])
}

pub fn protected_component(names: &Vec<Vec<char>>) -> (r: bool)
    ensures
        r == any_protected(crate::text::views(names@)),
{
    let mut i: usize = 0;
    while i < names.len()
        invariant
            i <= names@.len(),
            forall|k: int| 0 <= k < i ==> !protected_name(#[trigger] crate::text::views(names@)[k]),
        decreases names.len() - i,
    {
        let n = to_lower(&names[i]);
        let is = |w: &str| -> (b: bool)
            ensures
                b == (n@ == w@),
            { crate::text::eq_str(&n, w) };
        assert(crate::text::views(names@)[i as int] == names@[i as int]@);
        if is(".git") || is(".hg") || is(".svn") || is(".ssh") || is(".gnupg") || is("id_rsa")
            || is("id_ed25519") || is("known_hosts") || is("credentials") {
            assert(protected_name(crate::text::views(names@)[i as int]));
            return true;
        }
        i = i + 1;
    }
    false
}

/// The policy's verdict on a path in a workspace: allowed under
/// `danger-full-access`; otherwise denied when it passes through a protected
/// name, names an environment or SSH file, or lies in a system directory.
/// `system_root` is `None` on Unix, where the system directories are
/// `/etc/`, `/usr/` and `/var/`; on Windows it holds the system root
/// (`SystemRoot`, else `C:\\Windows`), and the system directories are that
/// root and `C:\\Program Files`, compared without regard to ASCII case.
pub open spec fn protection_verdict(
    path: Seq<char>,
    workspace: Seq<char>,
    danger: bool,
    system_root: Option<Seq<char>>,
) -> Result<(), Seq<char>> {
    let windows = system_root is Some;
    let absolute = policy_absolute(path, workspace, windows);
    let names = policy_names(absolute, windows);
    let text = lower(normalized_text(absolute, windows));
    if danger {
        Ok(())
    } else if any_protected(names) {
        Err("protected path denied: "@ + path)
    } else if crate::text::ends_with(text, ".env"@) || contains(text, "\\.ssh\\"@) || contains(text, "/.ssh/"@) {
        Err("credential path denied: "@ + path)
    } else if match system_root {
        Some(root) => crate::text::starts_with(text, lower(root)) || crate::text::starts_with(
            text,
            "c:\\program files"@,
        ),
        None => crate::text::starts_with(text, "/etc/"@) || crate::text::starts_with(text, "/usr/"@)
            || crate::text::starts_with(text, "/var/"@),
    } {
        Err("system path denied: "@ + path)
    } else {
        Ok(())
    }
}

/// The protected-path policy (see [`protection_verdict`]); `system_root` is
/// `None` on Unix and the Windows system root on Windows.
pub fn ensure_not_protected(path: &str, workspace: &str, danger_full_access: bool, system_root: Option<&str>) -> (r:
    Result<(), String>)
    ensures
        match r {
            Ok(()) => protection_verdict(path@, workspace@, danger_full_access, crate::patch::opt_view(system_root)) is Ok,
            Err(m) => protection_verdict(path@, workspace@, danger_full_access, crate::patch::opt_view(system_root))
                == Err::<(), Seq<char>>(m@),
        },
{
    if danger_full_access {
        return Ok(());
    }
    let windows = system_root.is_some();
    let absolute = absolute_path(path, workspace, windows);
    assert(absolute@ =~= policy_absolute(path@, workspace@, windows));
    let abs = crate::text::string_of(&absolute);
    let (names, text) = normalize_for_policy(abs.as_str(), windows);
    let t = to_lower(&chars_of(text.as_str()));
    let deny = |kind: &str| -> (m: String)
        ensures
            m@ == kind@ + path@,
        {
            let mut m = chars_of(kind);
            crate::text::push_str(&mut m, path);
            crate::text::string_of(&m)
        };
    if protected_component(&names) {
        return Err(deny("protected path denied: "));
    }
    if crate::text::ends_with_str(&t, ".env") || contains_str(&t, "\\.ssh\\") || contains_str(&t, "/.ssh/") {
        return Err(deny("credential path denied: "));
    }
    let system = match system_root {
        Some(root) => {
            let lr = to_lower(&chars_of(root));
            crate::text::starts_with_chars(&t, &lr) || crate::text::starts_with_str(&t, "c:\\program files")
        },
        None => crate::text::starts_with_str(&t, "/etc/") || crate::text::starts_with_str(&t, "/usr/")
            || crate::text::starts_with_str(&t, "/var/"),
    };
    if system {
        return Err(deny("system path denied: "));
    }
    Ok(())
}

/// How severe a risk class is: read-only lowest, then write, network,
/// package install, destructive, credential, privilege.
pub open spec fn severity(r: CommandRisk) -> nat {
    match r {
        CommandRisk::ReadOnly => 0,
        CommandRisk::Write => 1,
        CommandRisk::Network => 2,
        CommandRisk::PackageInstall => 3,
        CommandRisk::Destructive => 4,
        CommandRisk::Credential => 5,
        CommandRisk::Privilege => 6,
    }
}

/// A command is scored at least as severe as every class one of whose
/// marks its lower-cased text holds: privilege (`sudo `, `runas `,
/// `set-executionpolicy`, `takeown `), credential (` ssh `, `ssh-key`,
/// `id_rsa`, `id_ed25519`, `token`, `secret`), destructive (`rm -rf`,
/// `git clean`, `format `, `del /s`, `remove-item`, `rd /s`, `rmdir /s`),
/// package install (`npm install`, `pnpm add`, `yarn add`, `cargo install`,
/// `pip install`, `uv add`, `winget install`, `choco install`) and network
/// (`curl `, `wget `, `invoke-webrequest`, `irm `, `git clone`,
/// `git fetch`, `git pull`).
pub proof fn law_risk_at_least_marked_class(command: Seq<char>, mark: Seq<char>)
    requires
        contains(lower(command), mark),
    ensures
        seq!["sudo "@, "runas "@, "set-executionpolicy"@, "takeown "@].contains(mark) ==> severity(
            command_risk(command),
        ) >= 6,
        seq![" ssh "@, "ssh-key"@, "id_rsa"@, "id_ed25519"@, "token"@, "secret"@].contains(mark) ==> severity(
            command_risk(command),
        ) >= 5,
        seq!["rm -rf"@, "git clean"@, "format "@, "del /s"@, "remove-item"@, "rd /s"@, "rmdir /s"@].contains(mark)
            ==> severity(command_risk(command)) >= 4,
        seq![
            "npm install"@,
            "pnpm add"@,
            "yarn add"@,
            "cargo install"@,
            "pip install"@,
            "uv add"@,
            "winget install"@,
            "choco install"@,
        ].contains(mark) ==> severity(command_risk(command)) >= 3,
        seq!["curl "@, "wget "@, "invoke-webrequest"@, "irm "@, "git clone"@, "git fetch"@, "git pull"@].contains(
            mark,
        ) ==> severity(command_risk(command)) >= 2,
{
    let l = lower(command);
    let p = seq!["sudo "@, "runas "@, "set-executionpolicy"@, "takeown "@];
    let c = seq![" ssh "@, "ssh-key"@, "id_rsa"@, "id_ed25519"@, "token"@, "secret"@];
    let d = seq!["rm -rf"@, "git clean"@, "format "@, "del /s"@, "remove-item"@, "rd /s"@, "rmdir /s"@];
    let k = seq![
        "npm install"@,
        "pnpm add"@,
        "yarn add"@,
        "cargo install"@,
        "pip install"@,
        "uv add"@,
        "winget install"@,
        "choco install"@,
    ];
    let n = seq!["curl "@, "wget "@, "invoke-webrequest"@, "irm "@, "git clone"@, "git fetch"@, "git pull"@];
    assert(privilege_needles() == p);
    assert(credential_needles() == c);
    assert(destructive_needles() == d);
    assert(package_needles() == k);
    assert(network_needles() == n);
    if p.contains(mark) {
        let i = choose|i: int| 0 <= i < p.len() && p[i] == mark;
        assert(contains(l, privilege_needles()[i]));
    }
    if c.contains(mark) {
        let i = choose|i: int| 0 <= i < c.len() && c[i] == mark;
        assert(contains(l, credential_needles()[i]));
    }
    if d.contains(mark) {
        let i = choose|i: int| 0 <= i < d.len() && d[i] == mark;
        assert(contains(l, destructive_needles()[i]));
    }
    if k.contains(mark) {
        let i = choose|i: int| 0 <= i < k.len() && k[i] == mark;
        assert(contains(l, package_needles()[i]));
    }
    if n.contains(mark) {
        let i = choose|i: int| 0 <= i < n.len() && n[i] == mark;
        assert(contains(l, network_needles()[i]));
    }
}

/// A command that writes is never read-only: when its lower-cased text holds
/// `>`, `out-file`, `set-content`, `add-content`, `new-item`, `move-item`,
/// `copy-item`, `git commit`, `git add`, `cargo fmt` or `rustfmt`, it is
/// scored `Write`, or a more severe class when one of that class's marks
/// occurs too.
pub proof fn law_writes_are_not_read_only(command: Seq<char>, mark: Seq<char>)
    requires
        seq![
            ">"@,
            "out-file"@,
            "set-content"@,
            "add-content"@,
            "new-item"@,
            "move-item"@,
            "copy-item"@,
            "git commit"@,
            "git add"@,
            "cargo fmt"@,
            "rustfmt"@,
        ].contains(mark),
        contains(lower(command), mark),
    ensures
        command_risk(command) != CommandRisk::ReadOnly,
        command_risk(command) == CommandRisk::Write || command_risk(command) == CommandRisk::Network
            || command_risk(command) == CommandRisk::PackageInstall || command_risk(command)
            == CommandRisk::Destructive || command_risk(command) == CommandRisk::Credential || command_risk(command)
            == CommandRisk::Privilege,
{
    let marks = seq![
        ">"@,
        "out-file"@,
        "set-content"@,
        "add-content"@,
        "new-item"@,
        "move-item"@,
        "copy-item"@,
        "git commit"@,
        "git add"@,
        "cargo fmt"@,
        "rustfmt"@,
    ];
    let i = choose|i: int| 0 <= i < marks.len() && marks[i] == mark;
    assert(write_needles() == marks);
    assert(contains(lower(command), write_needles()[i]));
    assert(any_contains(lower(command), write_needles()));
}

/// Risk scoring ignores ASCII case: a command scores as its lower-cased
/// text does.
pub proof fn lemma_risk_ignores_case(command: Seq<char>)
    ensures
        command_risk(lower(command)) == command_risk(command),
{
    assert(lower(lower(command)) =~= lower(command));
}

} // verus!
