//! Permission profiles and the decisions they make about file writes and
//! shell commands.
use vstd::prelude::*;
use crate::text::{chars_of, eq_str, push_all, push_str, string_of, trim, trim_chars};
use crate::map::text_eq;

verus! {

/// How much the harness may do without asking.
#[derive(Debug, Clone, Copy, PartialEq, Eq, Structural)]
pub enum PermissionProfile {
    ReadOnly,
    Ask,
    AcceptEdits,
    WorkspaceWrite,
    FullAccess,
    DangerFullAccess,
}

/// The profile a name selects; unknown names select `Ask`.
pub open spec fn profile_from_name(value: Seq<char>) -> PermissionProfile {
    if value == "read-only"@ {
        PermissionProfile::ReadOnly
    } else if value == "accept-edits"@ {
        PermissionProfile::AcceptEdits
    } else if value == "workspace-write"@ {
        PermissionProfile::WorkspaceWrite
    } else if value == "full-access"@ {
        PermissionProfile::FullAccess
    } else if value == "danger-full-access"@ {
        PermissionProfile::DangerFullAccess
    } else {
        PermissionProfile::Ask
    }
}

impl PermissionProfile {
    pub fn parse(value: &str) -> (r: Self)
        ensures
            r == profile_from_name(value@),
    {
        let v = chars_of(value);
        if eq_str(&v, "read-only") {
            PermissionProfile::ReadOnly
        } else if eq_str(&v, "accept-edits") {
            PermissionProfile::AcceptEdits
        } else if eq_str(&v, "workspace-write") {
            PermissionProfile::WorkspaceWrite
        } else if eq_str(&v, "full-access") {
            PermissionProfile::FullAccess
        } else if eq_str(&v, "danger-full-access") {
            PermissionProfile::DangerFullAccess
        } else {
            PermissionProfile::Ask
        }
    }
}

/// What a permission check decided.
#[derive(Debug, PartialEq, Eq)]
pub enum PermissionDecision {
    Allow,
    Deny(String),
    /// The user must answer this question first.
    Ask(String),
}

pub open spec fn decision_view(d: PermissionDecision) -> (u8, Seq<char>) {
    match d {
        PermissionDecision::Allow => (0, seq![]),
        PermissionDecision::Deny(m) => (1, m@),
        PermissionDecision::Ask(q) => (2, q@),
    }
}

/// Where a path and the workspace lie once resolved on disk: their
/// components (the root as `/`), and how the workspace is displayed.
#[derive(Debug)]
pub struct ResolvedPaths {
    pub path: Vec<String>,
    pub workspace: Vec<String>,
    pub workspace_display: String,
}

pub open spec fn components_view(v: Seq<String>) -> Seq<Seq<char>> {
    v.map_values(|s: String| s@)
}

/// `prefix` is a leading run of the components of `path` (`Path::starts_with`).
pub open spec fn component_prefix(path: Seq<Seq<char>>, prefix: Seq<Seq<char>>) -> bool {
    prefix.len() <= path.len() && path.take(prefix.len() as int) == prefix
}

/// Checks on a path and the harness profile.
#[derive(Debug)]
pub struct PermissionEngine {
    pub profile: PermissionProfile,
    pub workspace: String,
    pub interactive: bool,
}

pub open spec fn outside_message(path: Seq<char>, workspace: Seq<char>) -> Seq<char> {
    "path "@ + path + " is outside workspace "@ + workspace
}

pub open spec fn non_interactive_message(question: Seq<char>) -> Seq<char> {
    question + " denied in non-interactive mode"@
}

/// A component that a following `..` takes back: a name, not the root
/// (`/`), a prefix (`C:`, `\\\\server\\share`) or `..` itself.
pub open spec fn named_component(c: Seq<char>) -> bool {
    c != "/"@ && c != ".."@ && !(c.len() > 0 && c.last() == ':') && !crate::config::starts_unc(c)
}

/// Components with `.` dropped and `..` resolved lexically: a `..` takes back
/// the name before it, stays at the root, and is kept where nothing can be
/// taken back.
pub open spec fn lexical(c: Seq<Seq<char>>) -> Seq<Seq<char>>
    decreases c.len(),
{
    if c.len() == 0 {
        seq![]
    } else {
        let prev = lexical(c.drop_last());
        let x = c.last();
        if x == "."@ {
            prev
        } else if x == ".."@ && prev.len() > 0 && named_component(prev.last()) {
            prev.drop_last()
        } else if x == ".."@ && prev.len() > 0 && prev.last() == "/"@ {
            prev
        } else {
            prev.push(x)
        }
    }
}

/// The resolved path lies within the resolved workspace: once `.` and `..`
/// are resolved lexically in both, the workspace's components lead the
/// path's, and no `..` is left in the path.
pub open spec fn within_workspace(resolved: ResolvedPaths) -> bool {
    let p = lexical(components_view(resolved.path@));
    let w = lexical(components_view(resolved.workspace@));
    component_prefix(p, w) && forall|k: int| 0 <= k < p.len() ==> #[trigger] p[k] != ".."@
}

fn named_component_exec(c: &Vec<char>) -> (r: bool)
    ensures
        r == named_component(c@),
{
    !eq_str(c, "/") && !eq_str(c, "..") && !(c.len() > 0 && c[c.len() - 1] == ':') && !(c.len() >= 2 && (c[0]
        == '/' || c[0] == '\\') && (c[1] == '/' || c[1] == '\\'))
}

/// The components resolved lexically (see [`lexical`]).
pub fn lexical_exec(v: &Vec<String>) -> (r: Vec<Vec<char>>)
    ensures
        crate::text::views(r@) == lexical(components_view(v@)),
{
    let ghost cv = components_view(v@);
    let mut out: Vec<Vec<char>> = Vec::new();
    let mut i: usize = 0;
    while i < v.len()
        invariant
            i <= v@.len(),
            cv == components_view(v@),
            crate::text::views(out@) == lexical(cv.take(i as int)),
        decreases v.len() - i,
    {
        assert(cv.take(i + 1).drop_last() =~= cv.take(i as int));
        assert(cv.take(i + 1).last() == v@[i as int]@);
        let x = chars_of(v[i].as_str());
        let ghost before = crate::text::views(out@);
        if eq_str(&x, ".") {
        } else if eq_str(&x, "..") && out.len() > 0 && named_component_exec(&out[out.len() - 1]) {
            out.pop();
            assert(crate::text::views(out@) =~= before.drop_last());
        } else if eq_str(&x, "..") && out.len() > 0 && eq_str(&out[out.len() - 1], "/") {
        } else {
            out.push(x);
            assert(crate::text::views(out@) =~= before.push(x@));
        }
        i = i + 1;
    }
    assert(cv.take(v@.len() as int) =~= cv);
    out
}

impl PermissionEngine {
    pub fn new(profile: PermissionProfile, workspace: String, interactive: bool) -> (r: Self)
        ensures
            r.profile == profile,
            r.workspace == workspace,
            r.interactive == interactive,
    {
        PermissionEngine { profile, workspace, interactive }
    }

    /// Paths may be read only inside the workspace, except under
    /// `danger-full-access`, which makes no harness-level check.
    pub fn check_read_path(&self, path: &str, resolved: &ResolvedPaths) -> (r: Result<(), String>)
        ensures
            match r {
                Ok(()) => self.profile == PermissionProfile::DangerFullAccess || within_workspace(*resolved),
                Err(m) => self.profile != PermissionProfile::DangerFullAccess && !within_workspace(*resolved)
                    && m@ == outside_message(path@, resolved.workspace_display@),
            },
    {
        if self.profile == PermissionProfile::DangerFullAccess {
            return Ok(());
        }
        ensure_workspace_path(path, resolved)
    }

    /// The question, or its refusal when nobody can answer.
    fn ask(&self, question: Vec<char>) -> (r: PermissionDecision)
        ensures
            decision_view(r) == if self.interactive {
                (2u8, question@)
            } else {
                (1u8, non_interactive_message(question@))
            },
    {
        if self.interactive {
            PermissionDecision::Ask(string_of(&question))
        } else {
            let mut m = question;
            push_str(&mut m, " denied in non-interactive mode");
            PermissionDecision::Deny(string_of(&m))
        }
    }

    /// Read-only denies writes, full danger access allows any; the other
    /// profiles require the path to lie in the workspace, and `ask` then
    /// asks the user.
    pub fn check_write_path(&self, path: &str, resolved: &ResolvedPaths) -> (r: PermissionDecision)
        ensures
            decision_view(r) == write_decision(
                self.profile,
                self.interactive,
                path@,
                within_workspace(*resolved),
                resolved.workspace_display@,
            ),
    {
        match self.profile {
            PermissionProfile::ReadOnly => PermissionDecision::Deny(
                crate::text::owned("write denied by read-only permission profile"),
            ),
            PermissionProfile::DangerFullAccess => PermissionDecision::Allow,
            PermissionProfile::Ask => match ensure_workspace_path(path, resolved) {
                Err(m) => PermissionDecision::Deny(m),
                Ok(()) => {
                    let mut q = chars_of("Allow file write to ");
                    push_str(&mut q, path);
                    push_str(&mut q, "?");
                    self.ask(q)
                },
            },
            _ => match ensure_workspace_path(path, resolved) {
                Err(m) => PermissionDecision::Deny(m),
                Ok(()) => PermissionDecision::Allow,
            },
        }
    }

    /// Read-only denies shell commands, full access allows them, the other
    /// profiles ask the user.
    pub fn check_shell(&self, command: &str) -> (r: PermissionDecision)
        ensures
            decision_view(r) == shell_decision(self.profile, self.interactive, command@),
    {
        match self.profile {
            PermissionProfile::ReadOnly => PermissionDecision::Deny(
                crate::text::owned("shell denied by read-only permission profile"),
            ),
            PermissionProfile::DangerFullAccess | PermissionProfile::FullAccess => {
                PermissionDecision::Allow
            },
            _ => {
                let mut q = chars_of("Allow shell command `");
                push_str(&mut q, command);
                push_str(&mut q, "`?");
                self.ask(q)
            },
        }
    }
}

pub open spec fn asked(interactive: bool, question: Seq<char>) -> (u8, Seq<char>) {
    if interactive {
        (2u8, question)
    } else {
        (1u8, non_interactive_message(question))
    }
}

pub open spec fn write_decision(
    profile: PermissionProfile,
    interactive: bool,
    path: Seq<char>,
    within: bool,
    workspace: Seq<char>,
) -> (u8, Seq<char>) {
    match profile {
        PermissionProfile::ReadOnly => (1u8, "write denied by read-only permission profile"@),
        PermissionProfile::DangerFullAccess => (0u8, seq![]),
        PermissionProfile::Ask => if !within {
            (1u8, outside_message(path, workspace))
        } else {
            asked(interactive, "Allow file write to "@ + path + "?"@)
        },
        _ => if !within {
            (1u8, outside_message(path, workspace))
        } else {
            (0u8, seq![])
        },
    }
}

pub open spec fn shell_decision(profile: PermissionProfile, interactive: bool, command: Seq<char>) -> (
    u8,
    Seq<char>,
) {
    match profile {
        PermissionProfile::ReadOnly => (1u8, "shell denied by read-only permission profile"@),
        PermissionProfile::DangerFullAccess | PermissionProfile::FullAccess => (0u8, seq![]),
        _ => asked(interactive, "Allow shell command `"@ + command + "`?"@),
    }
}

pub fn ensure_workspace_path(path: &str, resolved: &ResolvedPaths) -> (r: Result<(), String>)
    ensures
        match r {
            Ok(()) => within_workspace(*resolved),
            Err(m) => !within_workspace(*resolved) && m@ == outside_message(
                path@,
                resolved.workspace_display@,
            ),
        },
{
    let p = lexical_exec(&resolved.path);
    let w = lexical_exec(&resolved.workspace);
    let ghost pv = crate::text::views(p@);
    let ghost wv = crate::text::views(w@);
    let mut ok = w.len() <= p.len();
    let mut i: usize = 0;
    while ok && i < w.len()
        invariant
            ok ==> w.len() <= p.len(),
            i <= w.len(),
            pv == crate::text::views(p@),
            wv == crate::text::views(w@),
            ok ==> forall|k: int| 0 <= k < i ==> pv[k] == wv[k],
            !ok ==> !component_prefix(pv, wv),
        decreases w.len() - i + if ok {
            1int
        } else {
            0int
        },
    {
        assert(pv[i as int] == p@[i as int]@);
        assert(wv[i as int] == w@[i as int]@);
        if !text_eq(&p[i], &w[i]) {
            assert(pv.take(wv.len() as int)[i as int] == pv[i as int]);
            ok = false;
        } else {
            i = i + 1;
        }
    }
    if ok {
        assert(pv.take(wv.len() as int) =~= wv);
    }
    let mut j: usize = 0;
    while ok && j < p.len()
        invariant
            j <= p.len(),
            pv == crate::text::views(p@),
            ok ==> component_prefix(pv, wv),
            ok ==> forall|k: int| 0 <= k < j ==> #[trigger] pv[k] != ".."@,
            !ok ==> !(component_prefix(pv, wv) && forall|k: int| 0 <= k < pv.len() ==> #[trigger] pv[k] != ".."@),
        decreases p.len() - j + if ok {
            1int
        } else {
            0int
        },
    {
        assert(pv[j as int] == p@[j as int]@);
        if eq_str(&p[j], "..") {
            ok = false;
        } else {
            j = j + 1;
        }
    }
    if ok {
        Ok(())
    } else {
        let mut m = chars_of("path ");
        push_str(&mut m, path);
        push_str(&mut m, " is outside workspace ");
        push_str(&mut m, resolved.workspace_display.as_str());
        Err(string_of(&m))
    }
}

/// The user's answer allows the operation (`y`, `Y`, `yes` or `YES`, trimmed).
pub open spec fn answer_is_yes(answer: Seq<char>) -> bool {
    let a = trim(answer);
    a == "y"@ || a == "Y"@ || a == "yes"@ || a == "YES"@
}

pub fn answer_allows(answer: &str) -> (r: bool)
    ensures
        r == answer_is_yes(answer@),
{
    let a = trim_chars(&chars_of(answer));
    eq_str(&a, "y") || eq_str(&a, "Y") || eq_str(&a, "yes") || eq_str(&a, "YES")
}

/// The read-only profile denies every file write and every shell command.
pub proof fn lemma_read_only_denies(interactive: bool, path: Seq<char>, within: bool, workspace: Seq<char>, command: Seq<char>)
    ensures
        write_decision(PermissionProfile::ReadOnly, interactive, path, within, workspace).0 == 1,
        shell_decision(PermissionProfile::ReadOnly, interactive, command).0 == 1,
{
}

/// Every profile but `danger-full-access` denies writes outside the
/// workspace.
pub proof fn lemma_writes_stay_in_workspace(
    profile: PermissionProfile,
    interactive: bool,
    path: Seq<char>,
    workspace: Seq<char>,
)
    requires
        profile != PermissionProfile::DangerFullAccess,
    ensures
        write_decision(profile, interactive, path, false, workspace).0 == 1,
{
}

/// Without a terminal to ask, nothing is left to a question: each
/// decision allows or denies.
pub proof fn lemma_non_interactive_never_asks(
    profile: PermissionProfile,
    path: Seq<char>,
    within: bool,
    workspace: Seq<char>,
    command: Seq<char>,
)
    ensures
        write_decision(profile, false, path, within, workspace).0 != 2,
        shell_decision(profile, false, command).0 != 2,
{
}

/// `danger-full-access` allows every write and command (and, by
/// [`PermissionEngine::check_read_path`], every read).
pub proof fn lemma_danger_allows_all(interactive: bool, path: Seq<char>, within: bool, workspace: Seq<char>, command: Seq<char>)
    ensures
        write_decision(PermissionProfile::DangerFullAccess, interactive, path, within, workspace).0 == 0,
        shell_decision(PermissionProfile::DangerFullAccess, interactive, command).0 == 0,
{
}

/// At a terminal, inside the workspace: `ask` asks before writes and shell
/// commands, `accept-edits` and `workspace-write` allow writes and ask for
/// shell commands, `full-access` allows both.
pub proof fn lemma_profiles_in_workspace(path: Seq<char>, workspace: Seq<char>, command: Seq<char>)
    ensures
        write_decision(PermissionProfile::Ask, true, path, true, workspace).0 == 2,
        shell_decision(PermissionProfile::Ask, true, command).0 == 2,
        write_decision(PermissionProfile::AcceptEdits, true, path, true, workspace).0 == 0,
        shell_decision(PermissionProfile::AcceptEdits, true, command).0 == 2,
        write_decision(PermissionProfile::WorkspaceWrite, true, path, true, workspace).0 == 0,
        shell_decision(PermissionProfile::WorkspaceWrite, true, command).0 == 2,
        write_decision(PermissionProfile::FullAccess, true, path, true, workspace).0 == 0,
        shell_decision(PermissionProfile::FullAccess, true, command).0 == 0,
{
}

} // verus!
