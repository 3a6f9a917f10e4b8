//! Tool calls, tool results, and the registry that plans their execution.
use vstd::prelude::*;
use crate::json::{
    fields_view, json_object, json_quote, json_string_literal, object_text_of, string_member, string_member_exec,
    texts_read, JsonField, JsonFieldView,
};
use crate::text::{chars_of, owned, push_all, push_str, slice_chars, string_of, trim, trim_chars};

verus! {

/// A tool call requested by the model: the tool's name, its arguments as a
/// compact JSON text, and the provider's id for the call if it gave one.
#[derive(Debug, PartialEq, Eq)]
pub struct ToolCall {
    pub tool: String,
    pub arguments: String,
    pub call_id: Option<String>,
}

/// A tool call as plain values.
pub type CallView = (Seq<char>, Seq<char>, Option<Seq<char>>);

pub open spec fn opt_text(o: Option<String>) -> Option<Seq<char>> {
    match o {
        Some(s) => Some(s@),
        None => None,
    }
}

pub open spec fn call_view(c: ToolCall) -> CallView {
    (c.tool@, c.arguments@, opt_text(c.call_id))
}

pub open spec fn calls_view(cs: Seq<ToolCall>) -> Seq<CallView> {
    cs.map_values(|c: ToolCall| call_view(c))
}

impl ToolCall {
    pub fn new(tool: String, arguments: String, call_id: Option<String>) -> (r: ToolCall)
        ensures
            r.tool == tool,
            r.arguments == arguments,
            r.call_id == call_id,
    {
        ToolCall { tool, arguments, call_id }
    }

    /// The string argument named `name`, if the arguments hold one.
    pub fn string_argument(&self, name: &str) -> (r: Option<String>)
        ensures
            opt_text(r) == string_member(self.arguments@, name@),
    {
        string_member_exec(self.arguments.as_str(), name)
    }

    pub fn duplicate(&self) -> (r: ToolCall)
        ensures
            call_view(r) == call_view(*self),
    {
        ToolCall {
            tool: self.tool.clone(),
            arguments: self.arguments.clone(),
            call_id: crate::config::clone_opt_string(&self.call_id),
        }
    }
}

/// The outcome of one tool call.
#[derive(Debug, PartialEq, Eq)]
pub struct ToolResult {
    pub tool: String,
    pub success: bool,
    pub content: String,
}

pub open spec fn result_view(r: ToolResult) -> (Seq<char>, bool, Seq<char>) {
    (r.tool@, r.success, r.content@)
}

pub open spec fn results_view(rs: Seq<ToolResult>) -> Seq<(Seq<char>, bool, Seq<char>)> {
    rs.map_values(|r: ToolResult| result_view(r))
}

/// The pretty JSON array `serde_json::to_string_pretty` writes for results.
pub open spec fn results_json(rs: Seq<(Seq<char>, bool, Seq<char>)>) -> Seq<char> {
    if rs.len() == 0 {
        "[]"@
    } else {
        "[\n"@ + results_items(rs) + "\n]"@
    }
}

pub open spec fn result_item(r: (Seq<char>, bool, Seq<char>)) -> Seq<char> {
    "  {\n    \"tool\": "@ + json_string_literal(r.0) + ",\n    \"success\": "@ + (if r.1 {
        "true"@
    } else {
        "false"@
    }) + ",\n    \"content\": "@ + json_string_literal(r.2) + "\n  }"@
}

pub open spec fn results_items(rs: Seq<(Seq<char>, bool, Seq<char>)>) -> Seq<char>
    decreases rs.len(),
{
    if rs.len() == 0 {
        seq![]
    } else if rs.len() == 1 {
        result_item(rs[0])
    } else {
        results_items(rs.drop_last()) + ",\n"@ + result_item(rs.last())
    }
}

/// The tool results message: `Tool results:` and the results as a pretty
/// JSON array.
pub fn render_tool_results(results: &Vec<ToolResult>) -> (r: String)
    ensures
        r@ == "Tool results:\n"@ + results_json(results_view(results@)),
{
    let ghost rv = results_view(results@);
    let mut out = chars_of("Tool results:\n");
    if results.len() == 0 {
        push_str(&mut out, "[]");
        return string_of(&out);
    }
    let mut items: Vec<char> = Vec::new();
    let mut i: usize = 0;
    while i < results.len()
        invariant
            i <= results@.len(),
            rv == results_view(results@),
            items@ == results_items(rv.take(i as int)),
        decreases results.len() - i,
    {
        assert(rv.take(i + 1).drop_last() =~= rv.take(i as int));
        if i > 0 {
            push_str(&mut items, ",\n");
        }
        let r = &results[i];
        push_str(&mut items, "  {\n    \"tool\": ");
        push_str(&mut items, json_quote(r.tool.as_str()).as_str());
        push_str(&mut items, ",\n    \"success\": ");
        if r.success {
            push_str(&mut items, "true");
        } else {
            push_str(&mut items, "false");
        }
        push_str(&mut items, ",\n    \"content\": ");
        push_str(&mut items, json_quote(r.content.as_str()).as_str());
        push_str(&mut items, "\n  }");
        i = i + 1;
        if i == 1 {
            assert(items@ =~= results_items(rv.take(i as int)));
        }
    }
    assert(rv.take(results@.len() as int) =~= rv);
    push_str(&mut out, "[\n");
    crate::text::push_all(&mut out, &items);
    push_str(&mut out, "\n]");
    string_of(&out)
}

pub open spec fn tool_manifest_text() -> Seq<char> {
    "Available tools use this exact text protocol:\n<tool_call>{\"tool\":\"read_file\",\"arguments\":{\"path\":\"src/main.rs\"}}</tool_call>\n<tool_call>{\"tool\":\"write_file\",\"arguments\":{\"path\":\"notes.txt\",\"content\":\"...\"}}</tool_call>\n<tool_call>{\"tool\":\"edit_file\",\"arguments\":{\"path\":\"src/main.rs\",\"old\":\"exact old text\",\"new\":\"replacement text\"}}</tool_call>\n<tool_call>{\"tool\":\"glob\",\"arguments\":{\"pattern\":\"src/**/*.rs\"}}</tool_call>\n<tool_call>{\"tool\":\"grep\",\"arguments\":{\"query\":\"TODO\",\"path\":\"src\"}}</tool_call>\n<tool_call>{\"tool\":\"shell\",\"arguments\":{\"command\":\"cargo test\"}}</tool_call>\n<tool_call>{\"tool\":\"git_status\",\"arguments\":{}}</tool_call>\n<tool_call>{\"tool\":\"git_diff\",\"arguments\":{}}</tool_call>\n\nUse tools when needed to inspect or modify the workspace. After tool results, continue until the task is complete."@
}

/// The tools the manifest shows, in its order.
pub open spec fn manifest_tools() -> Seq<Seq<char>> {
    seq!["read_file"@, "write_file"@, "edit_file"@, "glob"@, "grep"@, "shell"@, "git_status"@, "git_diff"@]
}

/// Where each tool's call opens in the manifest.
pub open spec fn manifest_offsets() -> Seq<int> {
    seq![46, 125, 219, 346, 423, 504, 581, 641]
}

/// How a call of a tool opens: `<tool_call>{"tool":"<name>"`.
pub open spec fn call_opening(name: Seq<char>) -> Seq<char> {
    "<tool_call>{\"tool\":\""@ + name + "\""@
}

/// The manifest shows a call of each of the eight tools, `read_file`,
/// `write_file`, `edit_file`, `glob`, `grep`, `shell`, `git_status` and
/// `git_diff`, in that order.
pub proof fn lemma_manifest_shows_each_tool()
    ensures
        forall|k: int|
            0 <= k < 8 ==> crate::text::matches_at(
                tool_manifest_text(),
                call_opening(#[trigger] manifest_tools()[k]),
                manifest_offsets()[k],
            ),
        forall|k: int| 0 <= k < 7 ==> #[trigger] manifest_offsets()[k] < manifest_offsets()[k + 1],
        forall|k: int| 0 <= k < 8 ==> crate::text::contains(tool_manifest_text(), call_opening(#[trigger] manifest_tools()[k])),
{
    let m = tool_manifest_text();
    reveal_strlit("Available tools use this exact text protocol:\n<tool_call>{\"tool\":\"read_file\",\"arguments\":{\"path\":\"src/main.rs\"}}</tool_call>\n<tool_call>{\"tool\":\"write_file\",\"arguments\":{\"path\":\"notes.txt\",\"content\":\"...\"}}</tool_call>\n<tool_call>{\"tool\":\"edit_file\",\"arguments\":{\"path\":\"src/main.rs\",\"old\":\"exact old text\",\"new\":\"replacement text\"}}</tool_call>\n<tool_call>{\"tool\":\"glob\",\"arguments\":{\"pattern\":\"src/**/*.rs\"}}</tool_call>\n<tool_call>{\"tool\":\"grep\",\"arguments\":{\"query\":\"TODO\",\"path\":\"src\"}}</tool_call>\n<tool_call>{\"tool\":\"shell\",\"arguments\":{\"command\":\"cargo test\"}}</tool_call>\n<tool_call>{\"tool\":\"git_status\",\"arguments\":{}}</tool_call>\n<tool_call>{\"tool\":\"git_diff\",\"arguments\":{}}</tool_call>\n\nUse tools when needed to inspect or modify the workspace. After tool results, continue until the task is complete.");
    reveal_strlit("<tool_call>{\"tool\":\"");
    reveal_strlit("\"");
    reveal_strlit("read_file");
    assert(m.subrange(46int, 46int + call_opening("read_file"@).len()) =~= call_opening("read_file"@));
    reveal_strlit("write_file");
    assert(m.subrange(125int, 125int + call_opening("write_file"@).len()) =~= call_opening("write_file"@));
    reveal_strlit("edit_file");
    assert(m.subrange(219int, 219int + call_opening("edit_file"@).len()) =~= call_opening("edit_file"@));
    reveal_strlit("glob");
    assert(m.subrange(346int, 346int + call_opening("glob"@).len()) =~= call_opening("glob"@));
    reveal_strlit("grep");
    assert(m.subrange(423int, 423int + call_opening("grep"@).len()) =~= call_opening("grep"@));
    reveal_strlit("shell");
    assert(m.subrange(504int, 504int + call_opening("shell"@).len()) =~= call_opening("shell"@));
    reveal_strlit("git_status");
    assert(m.subrange(581int, 581int + call_opening("git_status"@).len()) =~= call_opening("git_status"@));
    reveal_strlit("git_diff");
    assert(m.subrange(641int, 641int + call_opening("git_diff"@).len()) =~= call_opening("git_diff"@));
    assert forall|k: int| 0 <= k < 8 implies crate::text::contains(m, call_opening(#[trigger] manifest_tools()[k])) by {
        crate::text::lemma_find_from(m, call_opening(manifest_tools()[k]), 0);
        assert(crate::text::matches_at(m, call_opening(manifest_tools()[k]), manifest_offsets()[k]));
    }
}

/// The tools and how the model calls them.
pub struct ToolRegistry {
    pub workspace: String,
    pub permissions: crate::permissions::PermissionEngine,
    /// The Windows system root on Windows; `None` on Unix.
    pub system_root: Option<String>,
}

impl ToolRegistry {
    /// A registry for a Unix workspace.
    pub fn new(workspace: String, permissions: crate::permissions::PermissionEngine) -> (r: ToolRegistry)
        ensures
            r.workspace == workspace,
            r.permissions == permissions,
            r.system_root is None,
    {
        ToolRegistry { workspace, permissions, system_root: None }
    }

    /// The same registry on Windows, whose system root is `root`.
    pub fn with_system_root(self, root: String) -> (r: ToolRegistry)
        ensures
            r.workspace == self.workspace,
            r.permissions == self.permissions,
            r.system_root == Some(root),
    {
        ToolRegistry { workspace: self.workspace, permissions: self.permissions, system_root: Some(root) }
    }

    /// The tool protocol shown to the model.
    pub fn tool_manifest() -> (r: &'static str)
        ensures
            r@ == tool_manifest_text(),
    {
        "Available tools use this exact text protocol:\n<tool_call>{\"tool\":\"read_file\",\"arguments\":{\"path\":\"src/main.rs\"}}</tool_call>\n<tool_call>{\"tool\":\"write_file\",\"arguments\":{\"path\":\"notes.txt\",\"content\":\"...\"}}</tool_call>\n<tool_call>{\"tool\":\"edit_file\",\"arguments\":{\"path\":\"src/main.rs\",\"old\":\"exact old text\",\"new\":\"replacement text\"}}</tool_call>\n<tool_call>{\"tool\":\"glob\",\"arguments\":{\"pattern\":\"src/**/*.rs\"}}</tool_call>\n<tool_call>{\"tool\":\"grep\",\"arguments\":{\"query\":\"TODO\",\"path\":\"src\"}}</tool_call>\n<tool_call>{\"tool\":\"shell\",\"arguments\":{\"command\":\"cargo test\"}}</tool_call>\n<tool_call>{\"tool\":\"git_status\",\"arguments\":{}}</tool_call>\n<tool_call>{\"tool\":\"git_diff\",\"arguments\":{}}</tool_call>\n\nUse tools when needed to inspect or modify the workspace. After tool results, continue until the task is complete."
    }
}

// ---------------------------------------------------------------------------
// Carrying out calls
// ---------------------------------------------------------------------------

pub open spec fn missing_argument_text(name: Seq<char>) -> Seq<char> {
    "missing string argument `"@ + name + "`"@
}

/// A string argument of a call, or the error naming it.
pub fn string_arg(args: &str, name: &str) -> (r: Result<String, String>)
    ensures
        match r {
            Ok(v) => string_member(args@, name@) == Some(v@),
            Err(m) => string_member(args@, name@) is None && m@ == missing_argument_text(name@),
        },
{
    match string_member_exec(args, name) {
        Some(v) => Ok(v),
        None => {
            let mut m = chars_of("missing string argument `");
            push_str(&mut m, name);
            push_str(&mut m, "`");
            Err(string_of(&m))
        },
    }
}

/// What running a call amounts to, once its arguments are read.
#[derive(Debug)]
pub enum ToolPlan {
    ReadFile { path: String },
    WriteFile { path: String, content: String },
    EditFile { path: String, old: String, new: String },
    /// Apply a unified diff to a file (`apply_patch`, or `edit_file` with a
    /// `patch` argument).
    PatchFile { path: String, patch: String },
    Glob { pattern: String },
    Grep { query: String, path: String },
    Shell { command: String },
    GitStatus,
    GitDiff,
    /// The call ends here with this result.
    Done(ToolResult),
}

pub open spec fn unknown_tool_text(tool: Seq<char>) -> Seq<char> {
    "unknown tool `"@ + tool + "`"@
}

/// The failed result of a call.
pub fn failed_result(tool: &str, error: String) -> (r: ToolResult)
    ensures
        r.tool@ == tool@,
        !r.success,
        r.content == error,
{
    ToolResult { tool: owned(tool), success: false, content: error }
}

/// The successful result of a call.
pub fn ok_result(tool: &str, content: String) -> (r: ToolResult)
    ensures
        r.tool@ == tool@,
        r.success,
        r.content == content,
{
    ToolResult { tool: owned(tool), success: true, content }
}

impl ToolRegistry {
    /// A path argument made absolute against the workspace: an absolute
    /// path as it is, else `workspace.join(path)`, by the platform's rules.
    pub fn resolve(&self, path: &str) -> (r: String)
        ensures
            r@ == crate::safety::policy_absolute(path@, self.workspace@, self.system_root is Some),
    {
        string_of(&crate::safety::absolute_path(path, self.workspace.as_str(), self.system_root.is_some()))
    }

    /// Reads a call's arguments into what running it takes: the tool and
    /// its string arguments (`grep` searches `.` without a path; `glob`
    /// patterns are joined to the workspace; `edit_file` with a `patch`
    /// applies it as `apply_patch` does); an unknown tool or a missing
    /// argument ends the call with a failed result.
    pub fn plan(&self, call: &ToolCall) -> (r: ToolPlan)
        ensures
            ({
                let t = call.tool@;
                let a = call.arguments@;
                let arg = |n: Seq<char>| string_member(a, n);
                if t == "read_file"@ {
                    match arg("path"@) {
                        Some(p) => r matches ToolPlan::ReadFile { path } && path@ == p,
                        None => r matches ToolPlan::Done(res) && res.tool@ == t && !res.success
                            && res.content@ == missing_argument_text("path"@),
                    }
                } else if t == "write_file"@ {
                    match (arg("path"@), arg("content"@)) {
                        (Some(p), Some(c)) => r matches ToolPlan::WriteFile { path, content } && path@
                            == p && content@ == c,
                        (None, _) => r matches ToolPlan::Done(res) && res.tool@ == t && !res.success
                            && res.content@ == missing_argument_text("path"@),
                        (Some(_), None) => r matches ToolPlan::Done(res) && res.tool@ == t
                            && !res.success && res.content@ == missing_argument_text("content"@),
                    }
                } else if t == "edit_file"@ && arg("path"@) is Some && arg("patch"@) is Some {
                    r matches ToolPlan::PatchFile { path, patch } && path@ == arg("path"@)->0
                        && patch@ == arg("patch"@)->0
                } else if t == "edit_file"@ {
                    match (arg("path"@), arg("old"@), arg("new"@)) {
                        (Some(p), Some(o), Some(n)) => r matches ToolPlan::EditFile { path, old, new }
                            && path@ == p && old@ == o && new@ == n,
                        (None, _, _) => r matches ToolPlan::Done(res) && res.tool@ == t
                            && !res.success && res.content@ == missing_argument_text("path"@),
                        (Some(_), None, _) => r matches ToolPlan::Done(res) && res.tool@ == t
                            && !res.success && res.content@ == missing_argument_text("old"@),
                        (Some(_), Some(_), None) => r matches ToolPlan::Done(res) && res.tool@ == t
                            && !res.success && res.content@ == missing_argument_text("new"@),
                    }
                } else if t == "apply_patch"@ {
                    match (arg("path"@), arg("patch"@)) {
                        (Some(p), Some(d)) => r matches ToolPlan::PatchFile { path, patch } && path@ == p
                            && patch@ == d,
                        (None, _) => r matches ToolPlan::Done(res) && res.tool@ == t && !res.success
                            && res.content@ == missing_argument_text("path"@),
                        (Some(_), None) => r matches ToolPlan::Done(res) && res.tool@ == t
                            && !res.success && res.content@ == missing_argument_text("patch"@),
                    }
                } else if t == "glob"@ {
                    match arg("pattern"@) {
                        Some(p) => r matches ToolPlan::Glob { pattern } && pattern@
                            == crate::config::join_path(self.workspace@, p, self.system_root is Some),
                        None => r matches ToolPlan::Done(res) && res.tool@ == t && !res.success
                            && res.content@ == missing_argument_text("pattern"@),
                    }
                } else if t == "grep"@ {
                    match arg("query"@) {
                        Some(q) => r matches ToolPlan::Grep { query, path } && query@ == q && path@
                            == match arg("path"@) {
                            Some(p) => p,
                            None => "."@,
                        },
                        None => r matches ToolPlan::Done(res) && res.tool@ == t && !res.success
                            && res.content@ == missing_argument_text("query"@),
                    }
                } else if t == "shell"@ {
                    match arg("command"@) {
                        Some(c) => r matches ToolPlan::Shell { command } && command@ == c,
                        None => r matches ToolPlan::Done(res) && res.tool@ == t && !res.success
                            && res.content@ == missing_argument_text("command"@),
                    }
                } else if t == "git_status"@ {
                    r is GitStatus
                } else if t == "git_diff"@ {
                    r is GitDiff
                } else {
                    r matches ToolPlan::Done(res) && res.tool@ == t && !res.success && res.content@
                        == unknown_tool_text(t)
                }
            }),
    {
        let t = call.tool.as_str();
        let a = call.arguments.as_str();
        let is = |w: &str| -> (b: bool)
            ensures
                b == (t@ == w@),
            { crate::text::same_text(t, w) };
        if is("read_file") {
            match string_arg(a, "path") {
                Ok(path) => ToolPlan::ReadFile { path },
                Err(e) => ToolPlan::Done(failed_result(t, e)),
            }
        } else if is("write_file") {
            let path = match string_arg(a, "path") {
                Ok(p) => p,
                Err(e) => return ToolPlan::Done(failed_result(t, e)),
            };
            match string_arg(a, "content") {
                Ok(content) => ToolPlan::WriteFile { path, content },
                Err(e) => ToolPlan::Done(failed_result(t, e)),
            }
        } else if is("edit_file") {
            let path = match string_arg(a, "path") {
                Ok(p) => p,
                Err(e) => return ToolPlan::Done(failed_result(t, e)),
            };
            if let Some(patch) = string_member_exec(a, "patch") {
                return ToolPlan::PatchFile { path, patch };
            }
            let old = match string_arg(a, "old") {
                Ok(o) => o,
                Err(e) => return ToolPlan::Done(failed_result(t, e)),
            };
            match string_arg(a, "new") {
                Ok(new) => ToolPlan::EditFile { path, old, new },
                Err(e) => ToolPlan::Done(failed_result(t, e)),
            }
        } else if is("apply_patch") {
            let path = match string_arg(a, "path") {
                Ok(p) => p,
                Err(e) => return ToolPlan::Done(failed_result(t, e)),
            };
            match string_arg(a, "patch") {
                Ok(patch) => ToolPlan::PatchFile { path, patch },
                Err(e) => ToolPlan::Done(failed_result(t, e)),
            }
        } else if is("glob") {
            match string_arg(a, "pattern") {
                Ok(p) => ToolPlan::Glob {
                    pattern: string_of(
                        &crate::config::join_path_exec(
                            &chars_of(self.workspace.as_str()),
                            p.as_str(),
                            self.system_root.is_some(),
                        ),
                    ),
                },
                Err(e) => ToolPlan::Done(failed_result(t, e)),
            }
        } else if is("grep") {
            match string_arg(a, "query") {
                Ok(query) => {
                    let path = match string_member_exec(a, "path") {
                        Some(p) => p,
                        None => owned("."),
                    };
                    ToolPlan::Grep { query, path }
                },
                Err(e) => ToolPlan::Done(failed_result(t, e)),
            }
        } else if is("shell") {
            match string_arg(a, "command") {
                Ok(command) => ToolPlan::Shell { command },
                Err(e) => ToolPlan::Done(failed_result(t, e)),
            }
        } else if is("git_status") {
            ToolPlan::GitStatus
        } else if is("git_diff") {
            ToolPlan::GitDiff
        } else {
            let mut m = chars_of("unknown tool `");
            push_str(&mut m, t);
            push_str(&mut m, "`");
            ToolPlan::Done(failed_result(t, string_of(&m)))
        }
    }
}

/// The path a planned call reads or writes, if it names one file.
pub open spec fn planned_file(plan: ToolPlan) -> Option<Seq<char>> {
    match plan {
        ToolPlan::ReadFile { path } => Some(path@),
        ToolPlan::WriteFile { path, .. } => Some(path@),
        ToolPlan::EditFile { path, .. } => Some(path@),
        ToolPlan::PatchFile { path, .. } => Some(path@),
        _ => None,
    }
}

impl ToolRegistry {
    /// The protected-path policy before a call runs: a file read, write or
    /// edit of a protected path (version-control data, credentials, SSH
    /// keys, environment files, system paths) is refused unless the profile
    /// is `danger-full-access`.
    pub fn check_protected(&self, plan: &ToolPlan) -> (r: Result<(), String>)
        ensures
            match planned_file(*plan) {
                Some(p) => match r {
                    Ok(()) => crate::safety::protection_verdict(
                        p,
                        self.workspace@,
                        self.permissions.profile == crate::permissions::PermissionProfile::DangerFullAccess,
                        opt_text(self.system_root),
                    ) is Ok,
                    Err(m) => crate::safety::protection_verdict(
                        p,
                        self.workspace@,
                        self.permissions.profile == crate::permissions::PermissionProfile::DangerFullAccess,
                        opt_text(self.system_root),
                    ) == Err::<(), Seq<char>>(m@),
                },
                None => r is Ok,
            },
    {
        let danger = self.permissions.profile == crate::permissions::PermissionProfile::DangerFullAccess;
        let root: Option<&str> = match &self.system_root {
            Some(s) => Some(s.as_str()),
            None => None,
        };
        match plan {
            ToolPlan::ReadFile { path } => crate::safety::ensure_not_protected(
                path.as_str(),
                self.workspace.as_str(),
                danger,
                root,
            ),
            ToolPlan::WriteFile { path, .. } => crate::safety::ensure_not_protected(
                path.as_str(),
                self.workspace.as_str(),
                danger,
                root,
            ),
            ToolPlan::EditFile { path, .. } => crate::safety::ensure_not_protected(
                path.as_str(),
                self.workspace.as_str(),
                danger,
                root,
            ),
            ToolPlan::PatchFile { path, .. } => crate::safety::ensure_not_protected(
                path.as_str(),
                self.workspace.as_str(),
                danger,
                root,
            ),
            _ => Ok(()),
        }
    }
}

/// An edit of a file's text: the first occurrence of `old` replaced by
/// `new`, or the error when `old` does not occur.
pub open spec fn edit_text(original: Seq<char>, old: Seq<char>, new: Seq<char>, shown: Seq<char>) -> Result<Seq<char>, Seq<char>> {
    if crate::text::contains(original, old) {
        Ok(crate::patch::replace_first(original, old, new))
    } else {
        Err("old text was not found in "@ + shown)
    }
}

pub fn edit_file_text(original: &str, old: &str, new: &str, shown: &str) -> (r: Result<String, String>)
    ensures
        crate::config::text_result(r) == edit_text(original@, old@, new@, shown@),
{
    let o = chars_of(original);
    let pat = chars_of(old);
    if !crate::text::contains_chars(&o, &pat) {
        let mut m = chars_of("old text was not found in ");
        push_str(&mut m, shown);
        return Err(string_of(&m));
    }
    Ok(string_of(&crate::patch::replace_first_exec(&o, &pat, &chars_of(new))))
}

pub open spec fn truncation_marker() -> Seq<char> {
    "<truncated at 200 matches>"@
}

/// The glob search stops once it has found 200 files.
pub fn glob_search_full(found: usize) -> (r: bool)
    ensures
        r == (found >= 200),
{
    found >= 200
}

/// The glob result: the matching files, one per line, cut after 200 with
/// a marker.
pub open spec fn glob_text(files: Seq<Seq<char>>) -> Seq<char> {
    if files.len() >= 200 {
        crate::text::join(files.take(200).push(truncation_marker()), "\n"@)
    } else {
        crate::text::join(files, "\n"@)
    }
}

pub fn glob_output(files: &Vec<String>) -> (r: String)
    ensures
        r@ == glob_text(crate::map::string_texts(files@)),
{
    let ghost fv = crate::map::string_texts(files@);
    let n: usize = if files.len() >= 200 {
        200
    } else {
        files.len()
    };
    let mut parts: Vec<Vec<char>> = Vec::new();
    let mut i: usize = 0;
    while i < n
        invariant
            i <= n <= files@.len(),
            fv == crate::map::string_texts(files@),
            crate::text::views(parts@) == fv.take(i as int),
        decreases n - i,
    {
        let ghost before = crate::text::views(parts@);
        parts.push(chars_of(files[i].as_str()));
        assert(crate::text::views(parts@) =~= before.push(fv[i as int]));
        assert(fv.take(i + 1) =~= fv.take(i as int).push(fv[i as int]));
        i = i + 1;
    }
    if files.len() >= 200 {
        let ghost before = crate::text::views(parts@);
        parts.push(chars_of("<truncated at 200 matches>"));
        assert(crate::text::views(parts@) =~= before.push(truncation_marker()));
    } else {
        assert(fv.take(n as int) =~= fv);
    }
    string_of(&crate::text::join_chars(&parts, "\n"))
}

/// One grep match line: the file, the line number, and the trimmed line.
pub open spec fn grep_line(file: Seq<char>, number: nat, line: Seq<char>) -> Seq<char> {
    file + ":"@ + crate::text::decimal(number) + ":"@ + trim(line)
}

/// The matches of one file's lines, added to those found so far, until
/// 200 (then the marker is added and the search stops).
pub open spec fn grep_scan(
    found: Seq<Seq<char>>,
    file: Seq<char>,
    lines: Seq<Seq<char>>,
    query: Seq<char>,
    k: nat,
) -> (Seq<Seq<char>>, bool)
    decreases k,
{
    if k == 0 {
        (found, false)
    } else {
        let prev = grep_scan(found, file, lines, query, (k - 1) as nat);
        if prev.1 || !crate::text::contains(lines[k - 1], query) {
            prev
        } else {
            let f = prev.0.push(grep_line(file, k, lines[k - 1]));
            if f.len() >= 200 {
                (f.push(truncation_marker()), true)
            } else {
                (f, false)
            }
        }
    }
}

/// Adds the matches of one file; returns whether the search is over.
pub fn grep_file(found: &mut Vec<String>, file: &str, content: &str, query: &str) -> (stop: bool)
    requires
        old(found)@.len() < 200,
    ensures
        ({
            let ls = crate::text::lines(content@);
            let r = grep_scan(crate::map::string_texts(old(found)@), file@, ls, query@, ls.len());
            crate::map::string_texts(final(found)@) == r.0 && stop == r.1
        }),
        !stop ==> final(found)@.len() < 200,
{
    let ls = crate::text::lines_of(&chars_of(content));
    let ghost lv = crate::text::views(ls@);
    let ghost start = crate::map::string_texts(found@);
    let q = chars_of(query);
    let mut i: usize = 0;
    while i < ls.len()
        invariant
            i <= ls@.len(),
            lv == crate::text::views(ls@),
            lv == crate::text::lines(content@),
            q@ == query@,
            start == crate::map::string_texts(old(found)@),
            grep_scan(start, file@, lv, query@, i as nat) == (crate::map::string_texts(found@), false),
            found@.len() < 200,
        decreases ls.len() - i,
    {
        assert(lv[i as int] == ls@[i as int]@);
        if crate::text::contains_chars(&ls[i], &q) {
            let mut line = chars_of(file);
            push_str(&mut line, ":");
            push_all(&mut line, &crate::text::usize_to_chars(i + 1));
            push_str(&mut line, ":");
            push_all(&mut line, &trim_chars(&ls[i]));
            let ghost before = crate::map::string_texts(found@);
            found.push(string_of(&line));
            assert(crate::map::string_texts(found@) =~= before.push(
                grep_line(file@, (i + 1) as nat, lv[i as int]),
            ));
            if found.len() >= 200 {
                let ghost b2 = crate::map::string_texts(found@);
                found.push(owned("<truncated at 200 matches>"));
                assert(crate::map::string_texts(found@) =~= b2.push(truncation_marker()));
                proof {
                    assert(grep_scan(start, file@, lv, query@, (i + 1) as nat) == (
                        crate::map::string_texts(found@),
                        true,
                    ));
                    lemma_grep_scan_stopped(start, file@, lv, query@, (i + 1) as nat);
                }
                return true;
            }
        }
        i = i + 1;
    }
    false
}

proof fn lemma_grep_scan_stopped(
    found: Seq<Seq<char>>,
    file: Seq<char>,
    lines: Seq<Seq<char>>,
    query: Seq<char>,
    k: nat,
)
    requires
        grep_scan(found, file, lines, query, k).1,
        k <= lines.len(),
    ensures
        grep_scan(found, file, lines, query, lines.len()) == grep_scan(found, file, lines, query, k),
    decreases lines.len() - k,
{
    if k < lines.len() {
        lemma_grep_scan_stopped(found, file, lines, query, k + 1);
    }
}

/// The fields a shell run reports.
pub open spec fn shell_fields(status: i32, stdout: Seq<char>, stderr: Seq<char>) -> Seq<(Seq<char>, JsonFieldView)> {
    seq![
        ("status"@, JsonFieldView::Int(status as i64)),
        ("stdout"@, JsonFieldView::Str(stdout)),
        ("stderr"@, JsonFieldView::Str(stderr)),
    ]
}

/// What a shell run reports: the object of [`shell_fields`] as `serde_json`
/// writes it.
pub fn shell_output_json(status: i32, stdout: &str, stderr: &str) -> (r: String)
    ensures
        r@ == object_text_of(shell_fields(status, stdout@, stderr@)),
        string_member(r@, "stdout"@) == Some(stdout@),
        string_member(r@, "stderr"@) == Some(stderr@),
{
    let fields = vec![
        (owned("status"), JsonField::Int(status as i64)),
        (owned("stdout"), JsonField::Str(owned(stdout))),
        (owned("stderr"), JsonField::Str(owned(stderr))),
    ];
    let ghost fv = fields_view(fields@);
    proof {
        reveal_strlit("status");
        reveal_strlit("stdout");
        reveal_strlit("stderr");
        assert(fv =~= shell_fields(status, stdout@, stderr@));
        assert("status"@[2] != "stdout"@[2] && "status"@[2] != "stderr"@[2] && "stdout"@[3] != "stderr"@[3]);
        assert(texts_read(fv));
    }
    match json_object(&fields) {
        Some(t) => {
            assert(fields@[1].1 matches JsonField::Str(s) && s@ == stdout@);
            assert(fields@[2].1 matches JsonField::Str(s) && s@ == stderr@);
            t
        },
        None => {
            assert(false);
            String::new()
        },
    }
}

/// The platform's path separators.
pub open spec fn separator_set(windows: bool) -> Seq<char> {
    if windows {
        seq!['/', '\\']
    } else {
        seq!['/']
    }
}

/// A path shown relative to the workspace when it lies inside it
/// (`Path::strip_prefix`, read on the text): the workspace without trailing
/// separators is empty text when the path is the workspace itself; when the
/// path continues it past a separator, the rest without leading separators;
/// otherwise the path as it is.
pub open spec fn relative_text(workspace: Seq<char>, path: Seq<char>, windows: bool) -> Seq<char> {
    let seps = separator_set(windows);
    let base = crate::text::trim_set_end(workspace, seps);
    if path == base {
        Seq::<char>::empty()
    } else if 0 < base.len() < path.len() && path.take(base.len() as int) == base && crate::text::in_set(
        path[base.len() as int],
        seps,
    ) {
        crate::text::trim_set_start(path.skip(base.len() + 1 as int), seps)
    } else {
        path
    }
}

pub fn display_relative(workspace: &str, path: &str, windows: bool) -> (r: String)
    ensures
        r@ == relative_text(workspace@, path@, windows),
{
    let ghost seps = separator_set(windows);
    let set: Vec<char> = if windows {
        vec!['/', '\\']
    } else {
        vec!['/']
    };
    assert(set@ =~= seps);
    let w = chars_of(workspace);
    let mut e: usize = w.len();
    assert(w@.take(e as int) =~= w@);
    while e > 0 && (w[e - 1] == '/' || (windows && w[e - 1] == '\\'))
        invariant
            e <= w@.len(),
            set@ == seps,
            seps == separator_set(windows),
            crate::text::trim_set_end(w@, seps) == crate::text::trim_set_end(w@.take(e as int), seps),
        decreases e,
    {
        assert(w@.take(e as int).last() == w@[e - 1]);
        assert(crate::text::in_set(w@[e - 1], seps)) by {
            if w@[e - 1] == '/' {
                assert(seps[0] == '/');
            } else {
                assert(seps[1] == '\\');
            }
        }
        assert(w@.take(e as int).drop_last() =~= w@.take(e - 1));
        e = e - 1;
    }
    if e > 0 {
        assert(w@.take(e as int).last() == w@[e - 1]);
        assert(!crate::text::in_set(w@[e - 1], seps)) by {
            if seps.contains(w@[e - 1]) {
                let k = choose|k: int| 0 <= k < seps.len() && seps[k] == w@[e - 1];
            }
        }
    }
    let base = slice_chars(&w, 0, e);
    assert(base@ =~= crate::text::trim_set_end(w@, seps));
    let p = chars_of(path);
    if crate::map::text_eq(&p, &base) {
        return String::new();
    }
    if base.len() > 0 && base.len() < p.len() && crate::text::starts_with_chars(&p, &base) && (p[base.len()] == '/'
        || (windows && p[base.len()] == '\\')) {
        assert(p@.take(base@.len() as int) =~= base@);
        assert(crate::text::in_set(p@[base@.len() as int], seps)) by {
            if p@[base@.len() as int] == '/' {
                assert(seps[0] == '/');
            } else {
                assert(seps[1] == '\\');
            }
        }
        let rest = slice_chars(&p, base.len() + 1, p.len());
        assert(rest@ =~= p@.skip(base@.len() + 1 as int));
        return string_of(&crate::text::trim_set_start_exec(&rest, &set));
    }
    proof {
        if 0 < base@.len() < p@.len() && p@.take(base@.len() as int) == base@ && crate::text::in_set(
            p@[base@.len() as int],
            seps,
        ) {
            assert(crate::text::starts_with(p@, base@));
            let k = choose|k: int| 0 <= k < seps.len() && seps[k] == p@[base@.len() as int];
        }
    }
    owned(path)
}

} // verus!
