//! Read-only helper agents: their prompts, and the decisions of a
//! subagent run between model replies and tool results.
use vstd::prelude::*;
use crate::config::{AppConfig, ModelProfile, ToolProtocol};
use crate::context::{instructions_text, ProjectContext};
use crate::parser::{parse_model_output, parsed_calls, visible_text};
use crate::providers::{copy_messages, messages_view, MessageRole, ModelMessage, ModelRequest};
use crate::text::{
    chars_of, contains, contains_chars, is_blank, lower, owned, push_all, push_str, string_of,
    to_lower, trim, trim_chars,
};
use crate::tools::{calls_view, call_view, render_tool_results, results_json, results_view, CallView, ToolCall, ToolResult};

verus! {

/// At most this many model turns per subagent run.
pub const MAX_SUBAGENT_TURNS: usize = 4;

/// What a subagent reports back.
#[derive(Debug)]
pub struct SubagentReport {
    pub kind: String,
    pub task: String,
    pub report: String,
    pub tool_calls: usize,
}

/// The canonical kind for common aliases: `planning` is `plan`, `debug` is
/// `test-debug`.
pub open spec fn kind_name(kind: Seq<char>) -> Seq<char> {
    if kind == "planning"@ {
        "plan"@
    } else if kind == "debug"@ {
        "test-debug"@
    } else {
        kind
    }
}

pub fn normalize_kind(kind: &str) -> (r: String)
    ensures
        r@ == kind_name(kind@),
{
    if crate::text::same_text(kind, "planning") {
        owned("plan")
    } else if crate::text::same_text(kind, "debug") {
        owned("test-debug")
    } else {
        owned(kind)
    }
}

/// The role a subagent kind is given.
pub open spec fn kind_role(kind: Seq<char>) -> Seq<char> {
    if kind == "search"@ {
        "Find relevant files, symbols, and evidence. Prefer grep/glob/read_file. Report only what matters."@
    } else if kind == "review"@ {
        "Review code and diffs for bugs, regressions, missing tests, and safety risks. Findings first."@
    } else if kind == "test-debug"@ {
        "Diagnose test failures from available files and git context. Suggest focused checks, but do not run shell commands."@
    } else if kind == "plan"@ {
        "Create a concrete implementation plan grounded in the current workspace."@
    } else {
        "Investigate the task and return a concise report grounded in observed files."@
    }
}

pub open spec fn subagent_prompt_text(kind: Seq<char>) -> Seq<char> {
    "You are a ClaudeCodeX "@ + kind + " subagent. "@ + kind_role(kind)
        + "\nDo not modify files. Do not claim a tool result unless it appears in tool results. Return a concise report with Evidence and Recommendation sections."@
}

pub fn subagent_prompt(kind: &str) -> (r: String)
    ensures
        r@ == subagent_prompt_text(kind@),
{
    let role = if crate::text::same_text(kind, "search") {
        "Find relevant files, symbols, and evidence. Prefer grep/glob/read_file. Report only what matters."
    } else if crate::text::same_text(kind, "review") {
        "Review code and diffs for bugs, regressions, missing tests, and safety risks. Findings first."
    } else if crate::text::same_text(kind, "test-debug") {
        "Diagnose test failures from available files and git context. Suggest focused checks, but do not run shell commands."
    } else if crate::text::same_text(kind, "plan") {
        "Create a concrete implementation plan grounded in the current workspace."
    } else {
        "Investigate the task and return a concise report grounded in observed files."
    };
    let mut out = chars_of("You are a ClaudeCodeX ");
    push_str(&mut out, kind);
    push_str(&mut out, " subagent. ");
    push_str(&mut out, role);
    push_str(
        &mut out,
        "\nDo not modify files. Do not claim a tool result unless it appears in tool results. Return a concise report with Evidence and Recommendation sections.",
    );
    string_of(&out)
}

pub open spec fn manifest_text() -> Seq<char> {
    "Read-only tools use this exact text protocol:\n<tool_call>{\"tool\":\"read_file\",\"arguments\":{\"path\":\"src/main.rs\"}}</tool_call>\n<tool_call>{\"tool\":\"glob\",\"arguments\":{\"pattern\":\"src/**/*.rs\"}}</tool_call>\n<tool_call>{\"tool\":\"grep\",\"arguments\":{\"query\":\"TODO\",\"path\":\"src\"}}</tool_call>\n<tool_call>{\"tool\":\"git_status\",\"arguments\":{}}</tool_call>\n<tool_call>{\"tool\":\"git_diff\",\"arguments\":{}}</tool_call>"@
}

/// The tool protocol shown to subagents: read-only tools only.
pub fn read_only_tool_manifest() -> (r: &'static str)
    ensures
        r@ == manifest_text(),
{
    "Read-only tools use this exact text protocol:\n<tool_call>{\"tool\":\"read_file\",\"arguments\":{\"path\":\"src/main.rs\"}}</tool_call>\n<tool_call>{\"tool\":\"glob\",\"arguments\":{\"pattern\":\"src/**/*.rs\"}}</tool_call>\n<tool_call>{\"tool\":\"grep\",\"arguments\":{\"query\":\"TODO\",\"path\":\"src\"}}</tool_call>\n<tool_call>{\"tool\":\"git_status\",\"arguments\":{}}</tool_call>\n<tool_call>{\"tool\":\"git_diff\",\"arguments\":{}}</tool_call>"
}

/// The system prompt of a subagent: for models that write simple JSON
/// actions, a short prompt with examples; otherwise the role prompt, the
/// workspace, the instructions and the read-only tool manifest.
pub open spec fn subagent_system_text(
    kind: Seq<char>,
    workspace: Seq<char>,
    instructions: Seq<char>,
    protocol: ToolProtocol,
) -> Seq<char> {
    if protocol == ToolProtocol::SimpleJson {
        "You are a ClaudeCodeX "@ + kind
            + " subagent. Inspect only. Do not edit files.\n\nWorkspace: "@ + workspace
            + "\n\nUse one JSON action when needed. Use glob to list files. Use read_file only for an exact file path:\n{\"action\":\"glob\",\"pattern\":\"src/**/*.rs\"}\n{\"action\":\"read_file\",\"path\":\"src/main.rs\"}\n{\"action\":\"grep\",\"query\":\"text\",\"path\":\"src\"}\n{\"action\":\"git_status\"}\n{\"action\":\"git_diff\"}\n\nProject instructions:\n"@
            + instructions
    } else {
        subagent_prompt_text(kind) + "\n\nWorkspace: "@ + workspace + "\n\nProject instructions:\n"@
            + instructions + "\n\n"@ + manifest_text()
    }
}

pub fn subagent_system_messages(
    kind: &str,
    context: &ProjectContext,
    tool_protocol: ToolProtocol,
) -> (r: Vec<ModelMessage>)
    ensures
        messages_view(r@) == seq![
            (
                MessageRole::System,
                subagent_system_text(
                    kind@,
                    context.workspace@,
                    instructions_text(context.instruction_files@),
                    tool_protocol,
                ),
            ),
        ],
{
    let instructions = context.render_for_prompt();
    let mut out: Vec<char>;
    if tool_protocol == ToolProtocol::SimpleJson {
        out = chars_of("You are a ClaudeCodeX ");
        push_str(&mut out, kind);
        push_str(&mut out, " subagent. Inspect only. Do not edit files.\n\nWorkspace: ");
        push_str(&mut out, context.workspace.as_str());
        push_str(
            &mut out,
            "\n\nUse one JSON action when needed. Use glob to list files. Use read_file only for an exact file path:\n{\"action\":\"glob\",\"pattern\":\"src/**/*.rs\"}\n{\"action\":\"read_file\",\"path\":\"src/main.rs\"}\n{\"action\":\"grep\",\"query\":\"text\",\"path\":\"src\"}\n{\"action\":\"git_status\"}\n{\"action\":\"git_diff\"}\n\nProject instructions:\n",
        );
        push_str(&mut out, instructions.as_str());
    } else {
        out = chars_of(subagent_prompt(kind).as_str());
        push_str(&mut out, "\n\nWorkspace: ");
        push_str(&mut out, context.workspace.as_str());
        push_str(&mut out, "\n\nProject instructions:\n");
        push_str(&mut out, instructions.as_str());
        push_str(&mut out, "\n\n");
        push_str(&mut out, read_only_tool_manifest());
    }
    let mut r: Vec<ModelMessage> = Vec::new();
    r.push(ModelMessage { role: MessageRole::System, content: string_of(&out) });
    assert(messages_view(r@) =~= seq![
        (
            MessageRole::System,
            subagent_system_text(
                kind@,
                context.workspace@,
                instructions_text(context.instruction_files@),
                tool_protocol,
            ),
        ),
    ]);
    r
}

/// The call a subagent reply seems to ask for without writing one: a
/// listing of Rust sources when it wants to read the workspace, or the git
/// status or diff it names.
pub open spec fn inferred_subagent_call(response: Seq<char>) -> Option<CallView> {
    let l = lower(response);
    if contains(l, "read_file"@) && (contains(l, "coding harness"@) || contains(l, "workspace"@)
        || contains(l, "downloads"@)) {
        Some(("glob"@, "{\"pattern\":\"src/**/*.rs\"}"@, None))
    } else if contains(l, "git_status"@) {
        Some(("git_status"@, "{}"@, None))
    } else if contains(l, "git_diff"@) {
        Some(("git_diff"@, "{}"@, None))
    } else {
        None
    }
}

pub fn infer_subagent_tool_call(response: &str) -> (r: Option<ToolCall>)
    ensures
        match r {
            Some(c) => inferred_subagent_call(response@) == Some(call_view(c)),
            None => inferred_subagent_call(response@) is None,
        },
{
    let l = to_lower(&chars_of(response));
    if crate::text::contains_str(&l, "read_file") && (crate::text::contains_str(&l, "coding harness")
        || crate::text::contains_str(&l, "workspace") || crate::text::contains_str(&l, "downloads")) {
        Some(ToolCall { tool: owned("glob"), arguments: owned("{\"pattern\":\"src/**/*.rs\"}"), call_id: None })
    } else if crate::text::contains_str(&l, "git_status") {
        Some(ToolCall { tool: owned("git_status"), arguments: owned("{}"), call_id: None })
    } else if crate::text::contains_str(&l, "git_diff") {
        Some(ToolCall { tool: owned("git_diff"), arguments: owned("{}"), call_id: None })
    } else {
        None
    }
}

/// The tools a subagent may use: those that only read.
pub open spec fn read_only_tool(tool: Seq<char>) -> bool {
    tool == "read_file"@ || tool == "glob"@ || tool == "grep"@ || tool == "git_status"@ || tool
        == "git_diff"@
}

pub fn is_read_only_tool(tool: &str) -> (r: bool)
    ensures
        r == read_only_tool(tool@),
{
    crate::text::same_text(tool, "read_file") || crate::text::same_text(tool, "glob")
        || crate::text::same_text(tool, "grep") || crate::text::same_text(tool, "git_status")
        || crate::text::same_text(tool, "git_diff")
}

pub open spec fn subagent_denial_text() -> Seq<char> {
    "subagents are read-only; allowed tools are read_file, glob, grep, git_status, git_diff"@
}

/// The failed result a subagent gets for a tool it may not use.
pub fn subagent_denied_result(call: &ToolCall) -> (r: ToolResult)
    ensures
        r.tool@ == call.tool@,
        !r.success,
        r.content@ == subagent_denial_text(),
{
    ToolResult {
        tool: call.tool.clone(),
        success: false,
        content: owned(
            "subagents are read-only; allowed tools are read_file, glob, grep, git_status, git_diff",
        ),
    }
}

/// The result a subagent gets without running a call: the denial for a
/// tool that is not read-only; `None` when the call may run.
pub fn subagent_tool_gate(call: &ToolCall) -> (r: Option<ToolResult>)
    ensures
        match r {
            Some(res) => !read_only_tool(call.tool@) && res.tool@ == call.tool@ && !res.success
                && res.content@ == subagent_denial_text(),
            None => read_only_tool(call.tool@),
        },
{
    if is_read_only_tool(call.tool.as_str()) {
        None
    } else {
        Some(subagent_denied_result(call))
    }
}

// ---------------------------------------------------------------------------
// A subagent run
// ---------------------------------------------------------------------------

/// The state of a subagent run between model replies.
#[derive(Debug)]
pub struct SubagentRun {
    pub kind: String,
    pub task: String,
    pub provider: String,
    pub model: String,
    pub transcript: Vec<ModelMessage>,
    pub tool_calls: usize,
    pub last_report: String,
    pub turns_left: usize,
}

/// What to do after a model reply.
#[derive(Debug)]
pub enum SubagentStep {
    /// Run these calls and hand their results back.
    Execute(Vec<ToolCall>),
    /// The run is over with this report.
    Done(SubagentReport),
}

/// The provider a model runs on: its profile's provider, else the default.
pub open spec fn selected_provider(config: AppConfig, model: Seq<char>) -> Seq<char> {
    match config.model_profiles.lookup(model) {
        Some(p) if p.provider is Some => p.provider->0@,
        _ => config.default_provider@,
    }
}

/// The profile of a model, or the default profile.
pub open spec fn profile_of(config: AppConfig, model: Seq<char>) -> ModelProfile {
    match config.model_profiles.lookup(model) {
        Some(p) => p,
        None => ModelProfile::spec_default(),
    }
}

/// How many turns a subagent may take: the configured limit, at least
/// one, and at most [`MAX_SUBAGENT_TURNS`].
pub open spec fn subagent_turns(max_agent_turns: usize) -> usize {
    if max_agent_turns < 1 {
        1
    } else if max_agent_turns > MAX_SUBAGENT_TURNS {
        MAX_SUBAGENT_TURNS
    } else {
        max_agent_turns
    }
}

pub open spec fn task_message(task: Seq<char>) -> Seq<char> {
    "Task: "@ + task + "\n\nReturn a concise subagent report."@
}

/// The calls a reply asks for: those written in it, else one inferred.
pub open spec fn step_calls(text: Seq<char>) -> Seq<CallView> {
    if parsed_calls(text).len() > 0 {
        parsed_calls(text)
    } else {
        match inferred_subagent_call(text) {
            Some(c) => seq![c],
            None => seq![],
        }
    }
}

/// The reply's report: its visible text, trimmed, or the whole reply,
/// trimmed, when nothing is visible.
pub open spec fn reply_report(text: Seq<char>) -> Seq<char> {
    if trim(visible_text(text)).len() > 0 {
        trim(visible_text(text))
    } else {
        trim(text)
    }
}

/// The last report after a reply: the reply's report unless it is empty.
pub open spec fn next_last_report(last: Seq<char>, text: Seq<char>) -> Seq<char> {
    if reply_report(text).len() > 0 {
        reply_report(text)
    } else {
        last
    }
}

pub open spec fn turn_limit_message(kind: Seq<char>) -> Seq<char> {
    "subagent `"@ + kind + "` reached turn limit before producing a report"@
}

pub open spec fn sat_add(a: usize, b: int) -> usize {
    if a + b > usize::MAX {
        usize::MAX
    } else {
        (a + b) as usize
    }
}

impl SubagentRun {
    /// A run of a subagent of `kind` on `task`: the kind normalized, the
    /// default model on its provider, the system prompt and the task.
    pub fn start(config: &AppConfig, context: &ProjectContext, kind: &str, task: &str) -> (r: SubagentRun)
        requires
            config.wf(),
        ensures
            r.kind@ == kind_name(kind@),
            r.task@ == task@,
            r.provider@ == selected_provider(*config, config.default_model@),
            r.model@ == config.default_model@,
            messages_view(r.transcript@) == seq![
                (
                    MessageRole::System,
                    subagent_system_text(
                        kind_name(kind@),
                        context.workspace@,
                        instructions_text(context.instruction_files@),
                        profile_of(*config, config.default_model@).tool_protocol,
                    ),
                ),
                (MessageRole::User, task_message(task@)),
            ],
            r.tool_calls == 0,
            r.last_report@.len() == 0,
            r.turns_left == subagent_turns(config.max_agent_turns),
    {
        let kind = normalize_kind(kind);
        let profile = config.model_profiles.get(config.default_model.as_str());
        let provider = match profile {
            Some(p) => match &p.provider {
                Some(name) => name.clone(),
                None => config.default_provider.clone(),
            },
            None => config.default_provider.clone(),
        };
        let protocol = match profile {
            Some(p) => p.tool_protocol,
            None => ToolProtocol::Xml,
        };
        let mut transcript = subagent_system_messages(kind.as_str(), context, protocol);
        let mut m = chars_of("Task: ");
        push_str(&mut m, task);
        push_str(&mut m, "\n\nReturn a concise subagent report.");
        let ghost before = messages_view(transcript@);
        transcript.push(ModelMessage { role: MessageRole::User, content: string_of(&m) });
        assert(messages_view(transcript@) =~= before.push((MessageRole::User, task_message(task@))));
        let turns = if config.max_agent_turns < 1 {
            1
        } else if config.max_agent_turns > MAX_SUBAGENT_TURNS {
            MAX_SUBAGENT_TURNS
        } else {
            config.max_agent_turns
        };
        SubagentRun {
            kind,
            task: owned(task),
            provider,
            model: config.default_model.clone(),
            transcript,
            tool_calls: 0,
            last_report: String::new(),
            turns_left: turns,
        }
    }

    /// The next request, or `None` when no turn is left.
    pub fn next_request(&self) -> (r: Option<ModelRequest>)
        ensures
            match r {
                Some(req) => self.turns_left > 0 && req.model@ == self.model@ && messages_view(
                    req.messages@,
                ) == messages_view(self.transcript@),
                None => self.turns_left == 0,
            },
    {
        if self.turns_left == 0 {
            None
        } else {
            Some(ModelRequest { model: self.model.clone(), messages: copy_messages(&self.transcript) })
        }
    }

    /// Takes a model reply: records it, and either asks for its calls to
    /// be run or ends the run with the reply's report.
    pub fn on_response(&mut self, text: &str) -> (step: SubagentStep)
        requires
            old(self).turns_left > 0,
        ensures
            final(self).turns_left == old(self).turns_left - 1,
            final(self).kind == old(self).kind,
            final(self).task == old(self).task,
            final(self).provider == old(self).provider,
            final(self).model == old(self).model,
            messages_view(final(self).transcript@) == messages_view(old(self).transcript@).push(
                (MessageRole::Assistant, text@),
            ),
            final(self).last_report@ == next_last_report(old(self).last_report@, text@),
            match step {
                SubagentStep::Execute(calls) => step_calls(text@).len() > 0 && calls_view(calls@)
                    == step_calls(text@) && final(self).tool_calls == sat_add(
                    old(self).tool_calls,
                    calls@.len() as int,
                ),
                SubagentStep::Done(rep) => step_calls(text@).len() == 0 && rep.kind@ == old(
                    self,
                ).kind@ && rep.task@ == old(self).task@ && rep.report@ == reply_report(text@)
                    && rep.tool_calls == old(self).tool_calls && final(self).tool_calls == old(
                    self,
                ).tool_calls,
            },
    {
        self.turns_left = self.turns_left - 1;
        let parsed = match parse_model_output(text) {
            Ok(p) => p,
            Err(_) => {
                return SubagentStep::Execute(Vec::new());
            },
        };
        let visible = trim_chars(&chars_of(parsed.visible_text.as_str()));
        let whole = trim_chars(&chars_of(text));
        let report = if visible.len() > 0 {
            visible
        } else {
            whole
        };
        if report.len() > 0 {
            self.last_report = string_of(&report);
        }
        let ghost before = messages_view(self.transcript@);
        self.transcript.push(ModelMessage { role: MessageRole::Assistant, content: owned(text) });
        assert(messages_view(self.transcript@) =~= before.push((MessageRole::Assistant, text@)));
        let calls = parsed.calls;
        if calls.len() == 0 {
            match infer_subagent_tool_call(text) {
                Some(call) => {
                    self.tool_calls = if self.tool_calls < usize::MAX {
                        self.tool_calls + 1
                    } else {
                        usize::MAX
                    };
                    let mut v: Vec<ToolCall> = Vec::new();
                    v.push(call);
                    assert(calls_view(v@) =~= seq![call_view(call)]);
                    SubagentStep::Execute(v)
                },
                None => SubagentStep::Done(
                    SubagentReport {
                        kind: self.kind.clone(),
                        task: self.task.clone(),
                        report: string_of(&report),
                        tool_calls: self.tool_calls,
                    },
                ),
            }
        } else {
            self.tool_calls = if self.tool_calls <= usize::MAX - calls.len() {
                self.tool_calls + calls.len()
            } else {
                usize::MAX
            };
            SubagentStep::Execute(calls)
        }
    }

    /// Records the results of the calls of the last reply.
    pub fn on_results(&mut self, results: &Vec<ToolResult>)
        ensures
            final(self).turns_left == old(self).turns_left,
            final(self).kind == old(self).kind,
            final(self).task == old(self).task,
            final(self).provider == old(self).provider,
            final(self).model == old(self).model,
            final(self).tool_calls == old(self).tool_calls,
            final(self).last_report == old(self).last_report,
            messages_view(final(self).transcript@) == messages_view(old(self).transcript@).push(
                (MessageRole::Tool, "Tool results:\n"@ + results_json(results_view(results@))),
            ),
    {
        let content = render_tool_results(results);
        let ghost before = messages_view(self.transcript@);
        self.transcript.push(ModelMessage { role: MessageRole::Tool, content });
        assert(messages_view(self.transcript@) =~= before.push(
            (MessageRole::Tool, "Tool results:\n"@ + results_json(results_view(results@))),
        ));
    }

    /// The outcome when no turn is left: the last report, if there was
    /// one.
    pub fn finish(&self) -> (r: Result<SubagentReport, String>)
        ensures
            match r {
                Ok(rep) => !is_blank(self.last_report@) && rep.kind@ == self.kind@ && rep.task@
                    == self.task@ && rep.report@ == "Subagent reached its turn limit. Last report:\n"@
                    + self.last_report@ && rep.tool_calls == self.tool_calls,
                Err(m) => is_blank(self.last_report@) && m@ == turn_limit_message(self.kind@),
            },
    {
        if crate::text::is_blank_chars(&chars_of(self.last_report.as_str())) {
            let mut m = chars_of("subagent `");
            push_str(&mut m, self.kind.as_str());
            push_str(&mut m, "` reached turn limit before producing a report");
            return Err(string_of(&m));
        }
        let mut out = chars_of("Subagent reached its turn limit. Last report:\n");
        push_str(&mut out, self.last_report.as_str());
        Ok(
            SubagentReport {
                kind: self.kind.clone(),
                task: self.task.clone(),
                report: string_of(&out),
                tool_calls: self.tool_calls,
            },
        )
    }
}

} // verus!
