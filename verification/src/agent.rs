//! The agent: its state across turns, the prompts it sends, the decisions
//! of a turn between model replies and tool results, slash commands, and
//! restoring a session.
use vstd::prelude::*;
use crate::config::{effort_text, AppConfig, EffortLevel, ModelProfile, ToolProtocol};
use crate::context::{instructions_text, ProjectContext};
use crate::providers::{copy_messages, messages_view, MessageRole, ModelMessage, ModelRequest};
use crate::subagents::{read_only_tool, is_read_only_tool};
use crate::text::{
    byte_len, byte_len_exec, chars_of, chars_within, chars_within_exec, contains, contains_str, cut_at_boundary,
    lower, owned, push_all, push_str, slice_chars, string_of, to_lower, trim, trim_chars, truncated,
};
use crate::tools::{call_view, calls_view, CallView, ToolCall, ToolResult};
use crate::json::{JsonField, JsonFieldView};

verus! {

/// Whether the agent works on tasks or only plans them.
#[derive(Debug, Clone, Copy, PartialEq, Eq, Structural)]
pub enum WorkMode {
    Agent,
    Plan,
}

pub open spec fn mode_text(m: WorkMode) -> Seq<char> {
    match m {
        WorkMode::Agent => "agent"@,
        WorkMode::Plan => "plan"@,
    }
}

impl WorkMode {
    pub fn as_str(self) -> (r: &'static str)
        ensures
            r@ == mode_text(self),
    {
        match self {
            WorkMode::Agent => "agent",
            WorkMode::Plan => "plan",
        }
    }
}

/// The work mode a stored name denotes: `plan` or `planning` (ignoring
/// surrounding whitespace and ASCII case) is plan mode, anything else
/// agent mode.
pub open spec fn work_mode_of(value: Seq<char>) -> WorkMode {
    let v = lower(trim(value));
    if v == "plan"@ || v == "planning"@ {
        WorkMode::Plan
    } else {
        WorkMode::Agent
    }
}

pub fn parse_work_mode(value: &str) -> (r: WorkMode)
    ensures
        r == work_mode_of(value@),
{
    let v = to_lower(&trim_chars(&chars_of(value)));
    if crate::text::eq_str(&v, "plan") || crate::text::eq_str(&v, "planning") {
        WorkMode::Plan
    } else {
        WorkMode::Agent
    }
}

/// A plan waiting for approval, with the task it is for.
#[derive(Debug)]
pub struct PendingPlan {
    pub task: String,
    pub plan: String,
}

/// Whether a turn may change the workspace.
#[derive(Debug, Clone, Copy, PartialEq, Eq, Structural)]
pub enum TurnMode {
    Implement,
    PlanOnly,
}

// ---------------------------------------------------------------------------
// Fixed texts
// ---------------------------------------------------------------------------

pub open spec fn fullscreen_help_text() -> Seq<char> {
    "Session\n  /session       show session path\n  /compact       compact context\n  /plan          turn plan mode on, off, or show status\n  /approve       implement the pending plan\n  /reject        discard the pending plan\n  /clear         clear visible transcript\n  /exit          quit\n\nModel\n  /model         show or switch model\n  /effort        show or set effort\n  /providers     list providers\n\nWorkspace\n  /context       show loaded instructions\n  /status        show git status\n  /review        review current git diff\n  /diff          show git diff\n  /preview       serve a file locally\n  /skills        list reusable workflow skills\n  /subagent      run helper subagent\n\nKeys\n  Enter submit, Esc clear input or exit when empty, Ctrl+C exit, arrows move/scroll"@
}

/// The command list shown in the full-screen interface.
pub fn fullscreen_help() -> (r: &'static str)
    ensures
        r@ == fullscreen_help_text(),
{
    "Session\n  /session       show session path\n  /compact       compact context\n  /plan          turn plan mode on, off, or show status\n  /approve       implement the pending plan\n  /reject        discard the pending plan\n  /clear         clear visible transcript\n  /exit          quit\n\nModel\n  /model         show or switch model\n  /effort        show or set effort\n  /providers     list providers\n\nWorkspace\n  /context       show loaded instructions\n  /status        show git status\n  /review        review current git diff\n  /diff          show git diff\n  /preview       serve a file locally\n  /skills        list reusable workflow skills\n  /subagent      run helper subagent\n\nKeys\n  Enter submit, Esc clear input or exit when empty, Ctrl+C exit, arrows move/scroll"
}

pub open spec fn base_prompt_text() -> Seq<char> {
    "You are ClaudeCodeX, a terminal-only coding agent harness.\n\nYour job is to solve software tasks in the current workspace. Be direct, inspect before editing, use tools when needed, and verify changes with focused commands when possible.\n\nYou must respect the harness permission profile. Do not claim that a tool ran unless a tool result says it ran. Keep final answers concise and grounded in observed results.\n\nThis is not a private provider prompt clone. Use your native strengths, but follow this visible tool protocol and complete the user's coding task end to end."@
}

/// The system prompt for models that use the tool-call protocol.
pub fn base_prompt() -> (r: &'static str)
    ensures
        r@ == base_prompt_text(),
{
    "You are ClaudeCodeX, a terminal-only coding agent harness.\n\nYour job is to solve software tasks in the current workspace. Be direct, inspect before editing, use tools when needed, and verify changes with focused commands when possible.\n\nYou must respect the harness permission profile. Do not claim that a tool ran unless a tool result says it ran. Keep final answers concise and grounded in observed results.\n\nThis is not a private provider prompt clone. Use your native strengths, but follow this visible tool protocol and complete the user's coding task end to end."
}

pub open spec fn plan_mode_prompt_text() -> Seq<char> {
    "PLAN MODE is active.\n\nCreate a concrete implementation plan only. Do not implement the task.\nYou may inspect the workspace with read-only tools: read_file, glob, grep, git_status, git_diff.\nDo not call write_file, edit_file, shell, or any mutating tool.\nThe plan should include scope, files likely to change, implementation steps, risks, and verification.\nEnd with a short approval instruction telling the user to run /approve to implement or /reject to discard."@
}

/// The extra system prompt of a planning turn.
pub fn plan_mode_prompt() -> (r: &'static str)
    ensures
        r@ == plan_mode_prompt_text(),
{
    "PLAN MODE is active.\n\nCreate a concrete implementation plan only. Do not implement the task.\nYou may inspect the workspace with read-only tools: read_file, glob, grep, git_status, git_diff.\nDo not call write_file, edit_file, shell, or any mutating tool.\nThe plan should include scope, files likely to change, implementation steps, risks, and verification.\nEnd with a short approval instruction telling the user to run /approve to implement or /reject to discard."
}

/// The prompt for models that write simple JSON actions, before any cut.
pub open spec fn local_prompt_text(workspace: Seq<char>, instructions: Seq<char>) -> Seq<char> {
    "You are ClaudeCodeX. Keep responses short.\n\nWorkspace: "@ + workspace
        + "\n\nUse exactly one JSON action when you need a tool:\n{\"action\":\"write_file\",\"path\":\"file\",\"content\":\"text\"}\n{\"action\":\"read_file\",\"path\":\"file\"}\n{\"action\":\"read_file\",\"path\":\"file\",\"start_line\":1,\"line_count\":80}\n{\"action\":\"shell\",\"command\":\"cmd\"}\n\nReturn final text only when done. Keep output short.\n\nProject instructions:\n"@
        + instructions
}

/// The prompt cut to `max_chars` bytes, with a marker, when longer.
pub open spec fn local_prompt(workspace: Seq<char>, instructions: Seq<char>, max_chars: Option<usize>) -> Seq<char> {
    let p = local_prompt_text(workspace, instructions);
    match max_chars {
        Some(m) => if byte_len(p) > m {
            p.take(chars_within(p, m as int)) + "\n...[truncated]"@
        } else {
            p
        },
        None => p,
    }
}

/// The cut, if any, falls on a character boundary (where `String::truncate`
/// would otherwise panic).
pub open spec fn local_prompt_cut_ok(workspace: Seq<char>, instructions: Seq<char>, max_chars: Option<usize>) -> bool {
    match max_chars {
        Some(m) => cut_at_boundary(local_prompt_text(workspace, instructions), m as nat),
        None => true,
    }
}

fn local_prompt_chars(workspace: &str, instructions: &str) -> (r: Vec<char>)
    ensures
        r@ == local_prompt_text(workspace@, instructions@),
{
    let mut p = chars_of("You are ClaudeCodeX. Keep responses short.\n\nWorkspace: ");
    push_str(&mut p, workspace);
    push_str(
        &mut p,
        "\n\nUse exactly one JSON action when you need a tool:\n{\"action\":\"write_file\",\"path\":\"file\",\"content\":\"text\"}\n{\"action\":\"read_file\",\"path\":\"file\"}\n{\"action\":\"read_file\",\"path\":\"file\",\"start_line\":1,\"line_count\":80}\n{\"action\":\"shell\",\"command\":\"cmd\"}\n\nReturn final text only when done. Keep output short.\n\nProject instructions:\n",
    );
    push_str(&mut p, instructions);
    p
}

/// Whether [`local_model_prompt`] can cut this prompt.
pub fn local_prompt_cut_fits(workspace: &str, instructions: &str, max_chars: Option<usize>) -> (r: bool)
    ensures
        r == local_prompt_cut_ok(workspace@, instructions@, max_chars),
{
    match max_chars {
        Some(m) => {
            let p = local_prompt_chars(workspace, instructions);
            let (k, used) = chars_within_exec(&p, m);
            proof {
                crate::text::lemma_chars_within_all(p@, m as int);
            }
            if k == p.len() {
                true
            } else {
                used == m
            }
        },
        None => true,
    }
}

pub fn local_model_prompt(workspace: &str, instructions: &str, max_chars: Option<usize>) -> (r: String)
    requires
        local_prompt_cut_ok(workspace@, instructions@, max_chars),
    ensures
        r@ == local_prompt(workspace@, instructions@, max_chars),
{
    let p = local_prompt_chars(workspace, instructions);
    match max_chars {
        Some(m) => {
            let (k, _used) = chars_within_exec(&p, m);
            proof {
                crate::text::lemma_chars_within_all(p@, m as int);
            }
            if k < p.len() {
                let mut out = slice_chars(&p, 0, k);
                assert(p@.take(k as int) =~= p@.subrange(0, k as int));
                push_str(&mut out, "\n...[truncated]");
                string_of(&out)
            } else {
                string_of(&p)
            }
        },
        None => string_of(&p),
    }
}

// ---------------------------------------------------------------------------
// Small decisions
// ---------------------------------------------------------------------------

/// A streamed reply holds a whole tool call once its closing tag arrived.
pub fn has_complete_streamed_tool_call(text: &str) -> (r: bool)
    ensures
        r == contains(text@, "</tool_call>"@),
{
    contains_str(&chars_of(text), "</tool_call>")
}

/// The call only reads.
pub fn is_read_only_call(call: &ToolCall) -> (r: bool)
    ensures
        r == read_only_tool(call.tool@),
{
    is_read_only_tool(call.tool.as_str())
}

pub open spec fn plan_block_text() -> Seq<char> {
    "blocked by plan mode: only read-only tools are allowed before `/approve`"@
}

/// The failed result of a call that plan mode does not run.
pub fn blocked_plan_tool_result(call: &ToolCall) -> (r: ToolResult)
    ensures
        r.tool@ == call.tool@,
        !r.success,
        r.content@ == plan_block_text(),
{
    ToolResult {
        tool: call.tool.clone(),
        success: false,
        content: owned("blocked by plan mode: only read-only tools are allowed before `/approve`"),
    }
}

/// The effort for a turn: high and max stay; review, planning, search,
/// find and status tasks go low; multi-file, architecture, refactor and
/// debug tasks go high; else the configured effort.
pub open spec fn auto_effort(configured: EffortLevel, input: Seq<char>) -> EffortLevel {
    let l = lower(input);
    if configured == EffortLevel::High || configured == EffortLevel::Max {
        configured
    } else if contains(l, "review"@) || contains(l, "plan"@) || contains(l, "search"@) || contains(
        l,
        "find"@,
    ) || contains(l, "status"@) {
        EffortLevel::Low
    } else if contains(l, "multi-file"@) || contains(l, "architecture"@) || contains(
        l,
        "refactor"@,
    ) || contains(l, "debug"@) {
        EffortLevel::High
    } else {
        configured
    }
}

pub fn auto_effort_for_task(configured: EffortLevel, user_input: &str) -> (r: EffortLevel)
    ensures
        r == auto_effort(configured, user_input@),
{
    let l = to_lower(&chars_of(user_input));
    if configured == EffortLevel::High || configured == EffortLevel::Max {
        return configured;
    }
    if contains_str(&l, "review") || contains_str(&l, "plan") || contains_str(&l, "search")
        || contains_str(&l, "find") || contains_str(&l, "status") {
        return EffortLevel::Low;
    }
    if contains_str(&l, "multi-file") || contains_str(&l, "architecture") || contains_str(
        &l,
        "refactor",
    ) || contains_str(&l, "debug") {
        return EffortLevel::High;
    }
    configured
}

/// The first `max_chars` characters, with `...` when more followed.
pub fn truncate_for_summary(value: &str, max_chars: usize) -> (r: String)
    ensures
        r@ == truncated(value@, max_chars as nat),
{
    crate::ui::truncate(value, max_chars)
}

// ---------------------------------------------------------------------------
// The agent's state
// ---------------------------------------------------------------------------

/// What the agent carries across turns.
#[derive(Debug)]
pub struct AgentState {
    pub config: AppConfig,
    pub context: ProjectContext,
    pub session_id: String,
    pub selected_provider: String,
    pub selected_model: String,
    pub effort_override: Option<EffortLevel>,
    pub work_mode: WorkMode,
    pub pending_plan: Option<PendingPlan>,
    pub transcript: Vec<ModelMessage>,
}

/// The payload of an event that records one text: `{"text": ...}`.
pub open spec fn text_payload(text: Seq<char>) -> Seq<char> {
    crate::json::object_text_of(crate::json::str_fields(seq![("text"@, text)]))
}

pub fn text_payload_exec(text: &str) -> (r: String)
    ensures
        r@ == text_payload(text@),
        crate::json::string_member(r@, "text"@) == Some(text@),
{
    let entries = vec![(owned("text"), owned(text))];
    proof {
        assert(crate::json::pairs_view(entries@) =~= seq![("text"@, text@)]);
    }
    let r = crate::json::string_object(&entries);
    assert(crate::json::string_member(r@, entries@[0].0@) == Some(entries@[0].1@));
    r
}

/// The system prompts of a turn.
pub open spec fn system_texts_for(
    profile: ModelProfile,
    workspace: Seq<char>,
    instructions: Seq<char>,
) -> Seq<(MessageRole, Seq<char>)> {
    if profile.tool_protocol == ToolProtocol::SimpleJson {
        seq![(MessageRole::System, local_prompt(workspace, instructions, profile.max_tool_prompt_size))]
    } else {
        seq![
            (MessageRole::System, base_prompt_text()),
            (
                MessageRole::System,
                "Workspace: "@ + workspace + "\n\nProject instructions:\n"@ + instructions,
            ),
            (MessageRole::System, crate::tools::tool_manifest_text()),
        ]
    }
}

impl AgentState {
    pub open spec fn wf(&self) -> bool {
        self.config.wf()
    }

    /// A fresh state: the default model, on its profile's provider or the
    /// default provider, in agent mode, with an empty transcript.
    pub fn new(config: AppConfig, context: ProjectContext, session_id: String) -> (r: AgentState)
        requires
            config.wf(),
        ensures
            r.wf(),
            r.config == config,
            r.context == context,
            r.session_id == session_id,
            r.selected_provider@ == crate::subagents::selected_provider(config, config.default_model@),
            r.selected_model@ == config.default_model@,
            r.effort_override is None,
            r.work_mode == WorkMode::Agent,
            r.pending_plan is None,
            r.transcript@.len() == 0,
    {
        let selected_provider = match config.model_profiles.get(config.default_model.as_str()) {
            Some(p) => match &p.provider {
                Some(name) => name.clone(),
                None => config.default_provider.clone(),
            },
            None => config.default_provider.clone(),
        };
        let selected_model = config.default_model.clone();
        AgentState {
            config,
            context,
            session_id,
            selected_provider,
            selected_model,
            effort_override: None,
            work_mode: WorkMode::Agent,
            pending_plan: None,
            transcript: Vec::new(),
        }
    }

    /// The selected model's profile, or the default profile.
    pub fn model_profile(&self) -> (r: ModelProfile)
        requires
            self.wf(),
        ensures
            r == crate::subagents::profile_of(self.config, self.selected_model@),
    {
        match self.config.model_profiles.get(self.selected_model.as_str()) {
            Some(p) => p.clone(),
            None => ModelProfile::default(),
        }
    }

    pub open spec fn spec_current_effort(&self) -> EffortLevel {
        match self.effort_override {
            Some(e) => e,
            None => self.config.spec_resolve_effort(self.selected_provider@, self.selected_model@),
        }
    }

    /// The override set for this session, else the configured effort.
    pub fn current_effort(&self) -> (r: EffortLevel)
        requires
            self.wf(),
        ensures
            r == self.spec_current_effort(),
    {
        match self.effort_override {
            Some(e) => e,
            None => self.config.resolve_effort(
                self.selected_provider.as_str(),
                self.selected_model.as_str(),
            ),
        }
    }

    /// The first eight characters of the session id.
    pub fn short_session_id(&self) -> (r: String)
        ensures
            r@ == self.session_id@.take(if self.session_id@.len() < 8 {
                self.session_id@.len() as int
            } else {
                8
            }),
    {
        let id = chars_of(self.session_id.as_str());
        let n: usize = if id.len() < 8 {
            id.len()
        } else {
            8
        };
        assert(id@.take(n as int) =~= id@.subrange(0, n as int));
        string_of(&slice_chars(&id, 0, n))
    }

    /// The local prompt of the selected model can be cut where its limit
    /// says.
    pub open spec fn prompt_fits(&self) -> bool {
        let p = crate::subagents::profile_of(self.config, self.selected_model@);
        p.tool_protocol == ToolProtocol::SimpleJson ==> local_prompt_cut_ok(
            self.context.workspace@,
            instructions_text(self.context.instruction_files@),
            p.max_tool_prompt_size,
        )
    }

    pub fn prompt_fits_exec(&self) -> (r: bool)
        requires
            self.wf(),
        ensures
            r == self.prompt_fits(),
    {
        let profile = self.model_profile();
        if profile.tool_protocol == ToolProtocol::SimpleJson {
            let instructions = self.context.render_for_prompt();
            local_prompt_cut_fits(
                self.context.workspace.as_str(),
                instructions.as_str(),
                profile.max_tool_prompt_size,
            )
        } else {
            true
        }
    }

    /// The system messages: for models that write simple JSON actions,
    /// one short prompt; otherwise the base prompt, the workspace and its
    /// instructions, and the tool manifest.
    pub fn system_messages(&self) -> (r: Vec<ModelMessage>)
        requires
            self.wf(),
            self.prompt_fits(),
        ensures
            messages_view(r@) == system_texts_for(
                crate::subagents::profile_of(self.config, self.selected_model@),
                self.context.workspace@,
                instructions_text(self.context.instruction_files@),
            ),
    {
        let profile = self.model_profile();
        let instructions = self.context.render_for_prompt();
        let mut r: Vec<ModelMessage> = Vec::new();
        if profile.tool_protocol == ToolProtocol::SimpleJson {
            r.push(
                ModelMessage {
                    role: MessageRole::System,
                    content: local_model_prompt(
                        self.context.workspace.as_str(),
                        instructions.as_str(),
                        profile.max_tool_prompt_size,
                    ),
                },
            );
        } else {
            r.push(ModelMessage { role: MessageRole::System, content: owned(base_prompt()) });
            let mut w = chars_of("Workspace: ");
            push_str(&mut w, self.context.workspace.as_str());
            push_str(&mut w, "\n\nProject instructions:\n");
            push_str(&mut w, instructions.as_str());
            r.push(ModelMessage { role: MessageRole::System, content: string_of(&w) });
            r.push(
                ModelMessage {
                    role: MessageRole::System,
                    content: owned(crate::tools::ToolRegistry::tool_manifest()),
                },
            );
        }
        assert(messages_view(r@) =~= system_texts_for(
            crate::subagents::profile_of(self.config, self.selected_model@),
            self.context.workspace@,
            instructions_text(self.context.instruction_files@),
        ));
        r
    }
}

// ---------------------------------------------------------------------------
// Session events
// ---------------------------------------------------------------------------

/// The session metadata payload (keys in sorted order, compact).
pub open spec fn metadata_text(
    effort: Seq<char>,
    model: Seq<char>,
    permission_profile: Seq<char>,
    provider: Seq<char>,
    work_mode: Seq<char>,
    workspace: Seq<char>,
) -> Seq<char> {
    crate::json::object_text_of(
        crate::json::str_fields(
            seq![
                ("effort"@, effort),
                ("model"@, model),
                ("permission_profile"@, permission_profile),
                ("provider"@, provider),
                ("work_mode"@, work_mode),
                ("workspace"@, workspace),
            ],
        ),
    )
}

/// What a restored session has set so far: provider, model, effort
/// override, work mode, pending plan, and transcript.
pub type RestoreView = (
    Seq<char>,
    Seq<char>,
    Option<EffortLevel>,
    WorkMode,
    Option<(Seq<char>, Seq<char>)>,
    Seq<(MessageRole, Seq<char>)>,
);

pub open spec fn str_or(o: Option<Seq<char>>, d: Seq<char>) -> Seq<char> {
    match o {
        Some(s) => s,
        None => d,
    }
}

/// One recorded event applied to what a session restores.
pub open spec fn restore_step(v: RestoreView, kind: Seq<char>, payload: Seq<char>) -> RestoreView {
    let text = crate::json::string_member(payload, "text"@);
    if kind == "metadata"@ {
        let provider = str_or(crate::json::string_member(payload, "provider"@), v.0);
        let model = str_or(crate::json::string_member(payload, "model"@), v.1);
        let effort = match crate::json::string_member(payload, "effort"@) {
            Some(e) => crate::config::parse_effort(e),
            None => v.2,
        };
        let mode = match crate::json::string_member(payload, "work_mode"@) {
            Some(m) => work_mode_of(m),
            None => v.3,
        };
        (provider, model, effort, mode, v.4, v.5)
    } else if kind == "effort"@ {
        match text {
            Some(e) => (v.0, v.1, crate::config::parse_effort(e), v.3, v.4, v.5),
            None => v,
        }
    } else if kind == "work_mode"@ {
        match text {
            Some(m) => (v.0, v.1, v.2, work_mode_of(m), v.4, v.5),
            None => v,
        }
    } else if kind == "pending_plan"@ {
        let task = str_or(crate::json::string_member(payload, "task"@), Seq::<char>::empty());
        let plan = str_or(crate::json::string_member(payload, "plan"@), Seq::<char>::empty());
        if task.len() > 0 && plan.len() > 0 {
            (v.0, v.1, v.2, v.3, Some((task, plan)), v.5)
        } else {
            v
        }
    } else if kind == "plan_resolved"@ {
        (v.0, v.1, v.2, v.3, None, v.5)
    } else if kind == "compact_summary"@ {
        match text {
            Some(t) => (v.0, v.1, v.2, v.3, v.4, v.5.push(
                (MessageRole::System, "Session summary so far:\n"@ + t),
            )),
            None => v,
        }
    } else if kind == "subagent_result"@ {
        match crate::json::string_member(payload, "report"@) {
            Some(report) => {
                let k = str_or(crate::json::string_member(payload, "kind"@), "subagent"@);
                let task = str_or(crate::json::string_member(payload, "task"@), Seq::<char>::empty());
                (v.0, v.1, v.2, v.3, v.4, v.5.push(
                    (MessageRole::System, subagent_note(k, task, report)),
                ))
            },
            None => v,
        }
    } else if kind == "user"@ {
        match text {
            Some(t) => (v.0, v.1, v.2, v.3, v.4, v.5.push((MessageRole::User, t))),
            None => v,
        }
    } else if kind == "assistant"@ {
        match text {
            Some(t) => (v.0, v.1, v.2, v.3, v.4, v.5.push((MessageRole::Assistant, t))),
            None => v,
        }
    } else if kind == "tool_result"@ {
        (v.0, v.1, v.2, v.3, v.4, v.5.push((MessageRole::Tool, payload)))
    } else {
        v
    }
}

/// The note a subagent's report leaves in the transcript.
pub open spec fn subagent_note(kind: Seq<char>, task: Seq<char>, report: Seq<char>) -> Seq<char> {
    "Subagent `"@ + kind + "` report for `"@ + task + "`:\n"@ + report
}

pub fn subagent_note_exec(kind: &str, task: &str, report: &str) -> (r: String)
    ensures
        r@ == subagent_note(kind@, task@, report@),
{
    let mut out = chars_of("Subagent `");
    push_str(&mut out, kind);
    push_str(&mut out, "` report for `");
    push_str(&mut out, task);
    push_str(&mut out, "`:\n");
    push_str(&mut out, report);
    string_of(&out)
}

pub open spec fn restore_fold(v: RestoreView, events: Seq<(Seq<char>, Seq<char>)>) -> RestoreView
    decreases events.len(),
{
    if events.len() == 0 {
        v
    } else {
        let prev = restore_fold(v, events.drop_last());
        restore_step(prev, events.last().0, events.last().1)
    }
}

proof fn reveal_event_kinds()
    ensures
        "metadata"@.len() == 8,
        "effort"@.len() == 6,
        "work_mode"@.len() == 9,
        "pending_plan"@.len() == 12,
        "plan_resolved"@.len() == 13,
        "compact_summary"@.len() == 15,
        "subagent_result"@.len() == 15,
        "user"@.len() == 4,
        "assistant"@.len() == 9,
        "tool_result"@.len() == 11,
        "tool_call"@.len() == 9,
        "inferred_tool_call"@.len() == 18,
        "assistant"@[0] == 'a',
        "work_mode"@[0] == 'w',
        "tool_call"@[0] == 't',
        "compact_summary"@[0] == 'c',
        "subagent_result"@[0] == 's',
{
    reveal_strlit("metadata");
    reveal_strlit("effort");
    reveal_strlit("work_mode");
    reveal_strlit("pending_plan");
    reveal_strlit("plan_resolved");
    reveal_strlit("compact_summary");
    reveal_strlit("subagent_result");
    reveal_strlit("user");
    reveal_strlit("assistant");
    reveal_strlit("tool_result");
    reveal_strlit("tool_call");
    reveal_strlit("inferred_tool_call");
}

proof fn lemma_compact_is_its_own_command()
    ensures
        "/compact"@ != "/exit"@,
        "/compact"@ != "/quit"@,
        "/compact"@ != "/help"@,
        "/compact"@ != "/clear"@,
        "/compact"@ != "/context"@,
        "/compact"@ != "/providers"@,
        "/compact"@ != "/effort"@,
        "/compact"@ != "/model"@,
        "/compact"@ != "/permissions"@,
        "/compact"@ != "/session"@,
        "/compact"@ != "/plan"@,
        "/compact"@ != "/approve"@,
        "/compact"@ != "/reject"@,
        "/compact"@ != "/status"@,
        "/compact"@ != "/diff"@,
        "/compact"@ != "/review"@,
        "/compact"@ != "/skills"@,
        "/compact"@ != "/subagent"@,
        "/compact"@ != "/preview"@,
        "/compact"@ != "/mascot"@,
{
    reveal_strlit("/compact");
    reveal_strlit("/exit");
    reveal_strlit("/quit");
    reveal_strlit("/help");
    reveal_strlit("/clear");
    reveal_strlit("/context");
    reveal_strlit("/providers");
    reveal_strlit("/effort");
    reveal_strlit("/model");
    reveal_strlit("/permissions");
    reveal_strlit("/session");
    reveal_strlit("/plan");
    reveal_strlit("/approve");
    reveal_strlit("/reject");
    reveal_strlit("/status");
    reveal_strlit("/diff");
    reveal_strlit("/review");
    reveal_strlit("/skills");
    reveal_strlit("/subagent");
    reveal_strlit("/preview");
    reveal_strlit("/mascot");
    assert("/compact"@[3] != "/context"@[3]);
    assert("/compact"@[1] != "/session"@[1]);
    assert("/compact"@[1] != "/approve"@[1]);
    assert("/compact"@[1] != "/preview"@[1]);
}

/// Replaying a slash command's events onto the state before it gives the
/// state after it.
pub open spec fn replays(old_s: AgentState, new_s: AgentState, r: SlashOutcome) -> bool {
    restore_fold(old_s.restore_view(), events_view(r.events@)) == new_s.restore_view()
}

proof fn lemma_restore_two(v: RestoreView, e1: (Seq<char>, Seq<char>), e2: (Seq<char>, Seq<char>))
    ensures
        restore_fold(v, seq![e1, e2]) == restore_step(restore_step(v, e1.0, e1.1), e2.0, e2.1),
{
    lemma_restore_append(v, seq![e1], seq![e2]);
    assert(seq![e1] + seq![e2] =~= seq![e1, e2]);
    lemma_restore_one(v, e1);
    lemma_restore_one(restore_step(v, e1.0, e1.1), e2);
}

/// A lower-case word reads back as itself.
proof fn lemma_plain_word(s: Seq<char>)
    requires
        s.len() > 0,
        forall|i: int| 0 <= i < s.len() ==> 'a' <= #[trigger] s[i] <= 'z',
    ensures
        lower(trim(s)) == s,
{
    assert(s[0] == s[0]);
    assert(s.last() == s[s.len() - 1]);
    assert(crate::text::trim_start(s) == s);
    assert(crate::text::trim_end(s) == s);
    assert(lower(s) =~= s);
}

/// The stored name of an effort level reads back as that level.
proof fn lemma_effort_round_trip(e: EffortLevel)
    ensures
        crate::config::parse_effort(effort_text(e)) == Some(e),
{
    crate::config::lemma_effort_names_round_trip(e, e);
}

/// The stored names of the work modes read back as those modes.
proof fn lemma_mode_round_trip(m: WorkMode)
    ensures
        work_mode_of(mode_text(m)) == m,
{
    reveal_strlit("agent");
    reveal_strlit("plan");
    reveal_strlit("planning");
    lemma_plain_word(mode_text(m));
}

proof fn lemma_restore_one(v: RestoreView, e: (Seq<char>, Seq<char>))
    ensures
        restore_fold(v, seq![e]) == restore_step(v, e.0, e.1),
{
    assert(seq![e].drop_last() =~= Seq::<(Seq<char>, Seq<char>)>::empty());
    reveal_with_fuel(restore_fold, 2);
}

/// Replaying a session in two pieces is replaying it at once: events are
/// applied one after another, in order.
pub proof fn lemma_restore_append(v: RestoreView, a: Seq<(Seq<char>, Seq<char>)>, b: Seq<(Seq<char>, Seq<char>)>)
    ensures
        restore_fold(v, a + b) == restore_fold(restore_fold(v, a), b),
    decreases b.len(),
{
    if b.len() == 0 {
        assert(a + b =~= a);
    } else {
        assert((a + b).drop_last() =~= a + b.drop_last());
        lemma_restore_append(v, a, b.drop_last());
    }
}

/// Replaying events that record tool calls changes nothing.
proof fn lemma_restore_ignores_calls(v: RestoreView, ev: Seq<(Seq<char>, Seq<char>)>)
    requires
        forall|i: int| 0 <= i < ev.len() ==> #[trigger] ev[i].0 == "tool_call"@ || ev[i].0 == "inferred_tool_call"@,
    ensures
        restore_fold(v, ev) == v,
    decreases ev.len(),
{
    if ev.len() > 0 {
        reveal_event_kinds();
        lemma_restore_ignores_calls(v, ev.drop_last());
        assert(ev[ev.len() - 1].0 == ev.last().0);
    }
}

/// Replaying what a model reply records restores the reply in the transcript.
proof fn lemma_response_replay(v: RestoreView, input: Seq<char>, mode: TurnMode, text: Seq<char>)
    requires
        crate::json::string_member(text_payload(text), "text"@) == Some(text),
    ensures
        restore_fold(v, response_events(input, mode, text)) == (v.0, v.1, v.2, v.3, v.4, v.5.push(
            (MessageRole::Assistant, text),
        )),
{
    let ev = response_events(input, mode, text);
    let first = seq![("assistant"@, text_payload(text))];
    let rest = ev.skip(1);
    assert(ev =~= first + rest);
    lemma_restore_append(v, first, rest);
    lemma_restore_one(v, ("assistant"@, text_payload(text)));
    reveal_event_kinds();
    let inferred = if crate::parser::parsed_calls(text).len() == 0 && mode == TurnMode::Implement {
        match inferred_write(input, text) {
            Some(c) => seq![("inferred_tool_call"@, call_payload(c))],
            None => seq![],
        }
    } else {
        seq![]
    };
    let calls = normalized_calls(input, turn_calls(input, mode, text)).map_values(
        |c: CallView| ("tool_call"@, call_payload(c)),
    );
    assert(rest =~= inferred + calls);
    assert forall|i: int| 0 <= i < rest.len() implies #[trigger] rest[i].0 == "tool_call"@ || rest[i].0
        == "inferred_tool_call"@ by {
        if i < inferred.len() {
            assert(rest[i] == inferred[i]);
        } else {
            assert(rest[i] == calls[i - inferred.len()]);
        }
    }
    lemma_restore_ignores_calls(restore_step(v, "assistant"@, text_payload(text)), rest);
}

/// Replaying recorded tool results adds one tool message per result, its
/// payload as recorded.
pub proof fn lemma_restore_tool_results(v: RestoreView, xs: Seq<(Seq<char>, bool, Seq<char>)>)
    ensures
        restore_fold(v, xs.map_values(|x: (Seq<char>, bool, Seq<char>)| ("tool_result"@, result_payload(x))))
            == (v.0, v.1, v.2, v.3, v.4, v.5 + xs.map_values(
            |x: (Seq<char>, bool, Seq<char>)| (MessageRole::Tool, result_payload(x)),
        )),
    decreases xs.len(),
{
    let ev = xs.map_values(|x: (Seq<char>, bool, Seq<char>)| ("tool_result"@, result_payload(x)));
    let ms = xs.map_values(|x: (Seq<char>, bool, Seq<char>)| (MessageRole::Tool, result_payload(x)));
    if xs.len() == 0 {
        assert(v.5 + ms =~= v.5);
    } else {
        let prev = xs.drop_last();
        lemma_restore_tool_results(v, prev);
        assert(ev.drop_last() =~= prev.map_values(
            |x: (Seq<char>, bool, Seq<char>)| ("tool_result"@, result_payload(x)),
        ));
        assert(ev.last() == ("tool_result"@, result_payload(xs.last())));
        reveal_event_kinds();
        assert(v.5 + ms =~= (v.5 + prev.map_values(
            |x: (Seq<char>, bool, Seq<char>)| (MessageRole::Tool, result_payload(x)),
        )).push((MessageRole::Tool, result_payload(xs.last()))));
    }
}

/// A restored transcript of more than 24 messages keeps its session
/// summaries and subagent notes, then its last 24 messages.
pub open spec fn durable(t: Seq<(MessageRole, Seq<char>)>) -> Seq<(MessageRole, Seq<char>)>
    decreases t.len(),
{
    if t.len() == 0 {
        seq![]
    } else {
        let m = t.last();
        if m.0 == MessageRole::System && (contains(m.1, "Session summary"@) || contains(
            m.1,
            "Subagent `"@,
        )) {
            durable(t.drop_last()).push(m)
        } else {
            durable(t.drop_last())
        }
    }
}

pub open spec fn trimmed_transcript(t: Seq<(MessageRole, Seq<char>)>) -> Seq<(MessageRole, Seq<char>)> {
    if t.len() <= 24 {
        t
    } else {
        durable(t) + t.skip(t.len() - 24)
    }
}

impl AgentState {
    pub open spec fn restore_view(&self) -> RestoreView {
        (
            self.selected_provider@,
            self.selected_model@,
            self.effort_override,
            self.work_mode,
            match self.pending_plan {
                Some(p) => Some((p.task@, p.plan@)),
                None => None,
            },
            messages_view(self.transcript@),
        )
    }

    /// The metadata recorded when a session starts.
    pub fn metadata_payload(&self) -> (r: String)
        requires
            self.wf(),
        ensures
            r@ == metadata_text(
                effort_text(self.spec_current_effort()),
                self.selected_model@,
                self.config.permission_profile@,
                self.selected_provider@,
                mode_text(self.work_mode),
                self.context.workspace@,
            ),
            restore_step(self.restore_view(), "metadata"@, r@) == (
                self.selected_provider@,
                self.selected_model@,
                Some(self.spec_current_effort()),
                self.work_mode,
                self.restore_view().4,
                self.restore_view().5,
            ),
    {
        let entries = vec![
            (owned("effort"), owned(self.current_effort().as_str())),
            (owned("model"), self.selected_model.clone()),
            (owned("permission_profile"), self.config.permission_profile.clone()),
            (owned("provider"), self.selected_provider.clone()),
            (owned("work_mode"), owned(self.work_mode.as_str())),
            (owned("workspace"), self.context.workspace.clone()),
        ];
        let ghost pv = crate::json::pairs_view(entries@);
        proof {
            reveal_strlit("effort");
            reveal_strlit("model");
            reveal_strlit("permission_profile");
            reveal_strlit("provider");
            reveal_strlit("work_mode");
            reveal_strlit("workspace");
            assert(pv =~= seq![
                ("effort"@, effort_text(self.spec_current_effort())),
                ("model"@, self.selected_model@),
                ("permission_profile"@, self.config.permission_profile@),
                ("provider"@, self.selected_provider@),
                ("work_mode"@, mode_text(self.work_mode)),
                ("workspace"@, self.context.workspace@),
            ]);
            assert("work_mode"@[4] != "workspace"@[4]);
            assert("effort"@[0] != "model"@[0]);
            assert("provider"@[1] != "permission_profile"@[1]);
            assert forall|i: int, j: int| 0 <= i < j < entries@.len() implies #[trigger] entries@[i].0@
                != #[trigger] entries@[j].0@ by {
                assert(entries@[i].0@ == pv[i].0 && entries@[j].0@ == pv[j].0);
            }
        }
        let r = crate::json::string_object(&entries);
        proof {
            assert(crate::json::string_member(r@, entries@[0].0@) == Some(entries@[0].1@));
            assert(crate::json::string_member(r@, entries@[1].0@) == Some(entries@[1].1@));
            assert(crate::json::string_member(r@, entries@[3].0@) == Some(entries@[3].1@));
            assert(crate::json::string_member(r@, entries@[4].0@) == Some(entries@[4].1@));
            reveal_event_kinds();
            lemma_effort_round_trip(self.spec_current_effort());
            lemma_mode_round_trip(self.work_mode);
        }
        r
    }
}

fn effort_from(text: &str) -> (r: Option<EffortLevel>)
    ensures
        r == crate::config::parse_effort(text@),
{
    match EffortLevel::from_str(text) {
        Ok(e) => Some(e),
        Err(_) => None,
    }
}

impl AgentState {
    /// Applies one recorded session event.
    pub fn restore_event(&mut self, kind: &str, payload: &str)
        ensures
            final(self).restore_view() == restore_step(old(self).restore_view(), kind@, payload@),
            final(self).config == old(self).config,
            final(self).context == old(self).context,
            final(self).session_id == old(self).session_id,
    {
        let ghost v = self.restore_view();
        let same = |a: &str, b: &str| -> (r: bool)
            ensures
                r == (a@ == b@),
            { crate::text::same_text(a, b) };
        let text = crate::json::string_member_exec(payload, "text");
        if same(kind, "metadata") {
            if let Some(p) = crate::json::string_member_exec(payload, "provider") {
                self.selected_provider = p;
            }
            if let Some(m) = crate::json::string_member_exec(payload, "model") {
                self.selected_model = m;
            }
            if let Some(e) = crate::json::string_member_exec(payload, "effort") {
                self.effort_override = effort_from(e.as_str());
            }
            if let Some(w) = crate::json::string_member_exec(payload, "work_mode") {
                self.work_mode = parse_work_mode(w.as_str());
            }
        } else if same(kind, "effort") {
            if let Some(e) = text {
                self.effort_override = effort_from(e.as_str());
            }
        } else if same(kind, "work_mode") {
            if let Some(m) = text {
                self.work_mode = parse_work_mode(m.as_str());
            }
        } else if same(kind, "pending_plan") {
            let task = match crate::json::string_member_exec(payload, "task") {
                Some(t) => t,
                None => String::new(),
            };
            let plan = match crate::json::string_member_exec(payload, "plan") {
                Some(t) => t,
                None => String::new(),
            };
            if !task.as_str().is_empty() && !plan.as_str().is_empty() {
                self.pending_plan = Some(PendingPlan { task, plan });
            }
        } else if same(kind, "plan_resolved") {
            self.pending_plan = None;
        } else if same(kind, "compact_summary") {
            if let Some(t) = text {
                let mut c = chars_of("Session summary so far:\n");
                push_str(&mut c, t.as_str());
                let ghost before = messages_view(self.transcript@);
                self.transcript.push(ModelMessage { role: MessageRole::System, content: string_of(&c) });
                assert(messages_view(self.transcript@) =~= before.push(
                    (MessageRole::System, "Session summary so far:\n"@ + t@),
                ));
            }
        } else if same(kind, "subagent_result") {
            if let Some(report) = crate::json::string_member_exec(payload, "report") {
                let k = match crate::json::string_member_exec(payload, "kind") {
                    Some(k) => k,
                    None => owned("subagent"),
                };
                let task = match crate::json::string_member_exec(payload, "task") {
                    Some(t) => t,
                    None => String::new(),
                };
                let note = subagent_note_exec(k.as_str(), task.as_str(), report.as_str());
                let ghost before = messages_view(self.transcript@);
                self.transcript.push(ModelMessage { role: MessageRole::System, content: note });
                assert(messages_view(self.transcript@) =~= before.push(
                    (MessageRole::System, subagent_note(k@, task@, report@)),
                ));
            }
        } else if same(kind, "user") {
            if let Some(t) = text {
                let ghost before = messages_view(self.transcript@);
                let ghost tv = t@;
                self.transcript.push(ModelMessage { role: MessageRole::User, content: t });
                assert(messages_view(self.transcript@) =~= before.push((MessageRole::User, tv)));
            }
        } else if same(kind, "assistant") {
            if let Some(t) = text {
                let ghost before = messages_view(self.transcript@);
                let ghost tv = t@;
                self.transcript.push(ModelMessage { role: MessageRole::Assistant, content: t });
                assert(messages_view(self.transcript@) =~= before.push((MessageRole::Assistant, tv)));
            }
        } else if same(kind, "tool_result") {
            let ghost before = messages_view(self.transcript@);
            self.transcript.push(ModelMessage { role: MessageRole::Tool, content: owned(payload) });
            assert(messages_view(self.transcript@) =~= before.push((MessageRole::Tool, payload@)));
        }
    }

    /// Keeps a long restored transcript short: its session summaries and
    /// subagent notes, then its last 24 messages.
    pub fn trim_restored_transcript(&mut self)
        ensures
            messages_view(final(self).transcript@) == trimmed_transcript(
                messages_view(old(self).transcript@),
            ),
            final(self).config == old(self).config,
            final(self).context == old(self).context,
            final(self).session_id == old(self).session_id,
            final(self).selected_provider == old(self).selected_provider,
            final(self).selected_model == old(self).selected_model,
            final(self).effort_override == old(self).effort_override,
            final(self).work_mode == old(self).work_mode,
            final(self).pending_plan == old(self).pending_plan,
    {
        let ghost t = messages_view(self.transcript@);
        if self.transcript.len() <= 24 {
            return ;
        }
        let mut kept: Vec<ModelMessage> = Vec::new();
        let mut i: usize = 0;
        while i < self.transcript.len()
            invariant
                i <= self.transcript@.len(),
                t == messages_view(self.transcript@),
                messages_view(kept@) == durable(t.take(i as int)),
            decreases self.transcript.len() - i,
        {
            assert(t.take(i + 1).drop_last() =~= t.take(i as int));
            assert(t.take(i + 1).last() == t[i as int]);
            let m = &self.transcript[i];
            if m.role == MessageRole::System && (contains_str(&chars_of(m.content.as_str()), "Session summary")
                || contains_str(&chars_of(m.content.as_str()), "Subagent `")) {
                let ghost before = messages_view(kept@);
                kept.push(m.duplicate());
                assert(messages_view(kept@) =~= before.push(t[i as int]));
            }
            i = i + 1;
        }
        assert(t.take(t.len() as int) =~= t);
        let start = self.transcript.len() - 24;
        let mut k = start;
        while k < self.transcript.len()
            invariant
                start <= k <= self.transcript@.len(),
                start == self.transcript@.len() - 24,
                t == messages_view(self.transcript@),
                messages_view(kept@) == durable(t) + t.subrange(start as int, k as int),
            decreases self.transcript.len() - k,
        {
            let ghost before = messages_view(kept@);
            kept.push(self.transcript[k].duplicate());
            assert(messages_view(kept@) =~= before.push(t[k as int]));
            assert(t.subrange(start as int, k + 1) =~= t.subrange(start as int, k as int).push(t[k as int]));
            k = k + 1;
        }
        assert(t.subrange(start as int, t.len() as int) =~= t.skip(t.len() - 24));
        self.transcript = kept;
    }

    /// Rebuilds the state from a session's recorded events (kind and JSON
    /// payload, in order), then trims the transcript.
    pub fn restore_transcript(&mut self, events: &Vec<(String, String)>)
        ensures
            ({
                let v = restore_fold(old(self).restore_view(), crate::json::pairs_view(events@));
                &&& final(self).selected_provider@ == v.0
                &&& final(self).selected_model@ == v.1
                &&& final(self).effort_override == v.2
                &&& final(self).work_mode == v.3
                &&& (match final(self).pending_plan {
                    Some(p) => Some((p.task@, p.plan@)),
                    None => None,
                }) == v.4
                &&& messages_view(final(self).transcript@) == trimmed_transcript(v.5)
            }),
            final(self).config == old(self).config,
            final(self).context == old(self).context,
            final(self).session_id == old(self).session_id,
    {
        let ghost start = self.restore_view();
        let ghost ev = crate::json::pairs_view(events@);
        let mut i: usize = 0;
        while i < events.len()
            invariant
                i <= events@.len(),
                ev == crate::json::pairs_view(events@),
                self.restore_view() == restore_fold(start, ev.take(i as int)),
                self.config == old(self).config,
                self.context == old(self).context,
                self.session_id == old(self).session_id,
            decreases events.len() - i,
        {
            assert(ev.take(i + 1).drop_last() =~= ev.take(i as int));
            assert(ev.take(i + 1).last() == ev[i as int]);
            self.restore_event(events[i].0.as_str(), events[i].1.as_str());
            i = i + 1;
        }
        assert(ev.take(events@.len() as int) =~= ev);
        self.trim_restored_transcript();
    }
}

// ---------------------------------------------------------------------------
// Compacting the transcript
// ---------------------------------------------------------------------------

/// The first line of a text, or nothing.
pub open spec fn first_line(s: Seq<char>) -> Seq<char> {
    if crate::text::lines(s).len() > 0 {
        crate::text::lines(s)[0]
    } else {
        Seq::<char>::empty()
    }
}

/// The path a tool result names after `marker`, if any.
pub open spec fn marked_path(content: Seq<char>, marker: Seq<char>) -> Option<Seq<char>> {
    match crate::text::find(content, marker) {
        Some(i) => {
            let p = trim(first_line(content.skip(i + marker.len())));
            if p.len() > 0 {
                Some(p)
            } else {
                None
            }
        },
        None => None,
    }
}

pub open spec fn opt_seq(o: Option<Seq<char>>) -> Seq<Seq<char>> {
    match o {
        Some(p) => seq![p],
        None => seq![],
    }
}

/// The paths a tool result reports written, edited or patched.
pub open spec fn touched_paths(content: Seq<char>) -> Seq<Seq<char>> {
    opt_seq(marked_path(content, "wrote "@)) + opt_seq(marked_path(content, "edited "@)) + opt_seq(
        marked_path(content, "patched "@),
    )
}

/// What compaction gathers from the messages it folds away: user goals,
/// successful and failed tool results, and touched paths.
pub open spec fn gather(ms: Seq<(MessageRole, Seq<char>)>) -> (Seq<Seq<char>>, nat, nat, Seq<Seq<char>>)
    decreases ms.len(),
{
    if ms.len() == 0 {
        (seq![], 0, 0, seq![])
    } else {
        let g = gather(ms.drop_last());
        let m = ms.last();
        if m.0 == MessageRole::User {
            (g.0.push(truncated(m.1, 140)), g.1, g.2, g.3)
        } else if m.0 == MessageRole::Tool {
            (
                g.0,
                if contains(m.1, "\"success\": true"@) {
                    g.1 + 1
                } else {
                    g.1
                },
                if contains(m.1, "\"success\": false"@) {
                    g.2 + 1
                } else {
                    g.2
                },
                g.3 + touched_paths(m.1),
            )
        } else {
            g
        }
    }
}

/// `files` holds, in ascending order and once each, the texts of `raw`.
pub open spec fn sorted_set_of(files: Seq<Seq<char>>, raw: Seq<Seq<char>>) -> bool {
    &&& crate::map::ascending(files)
    &&& forall|x: Seq<char>| files.contains(x) <==> raw.contains(x)
}

/// The compaction summary.
pub open spec fn compact_summary_text(
    count: nat,
    goals: Seq<Seq<char>>,
    ok: nat,
    failed: nat,
    files: Seq<Seq<char>>,
) -> Seq<char> {
    "Compacted "@ + crate::text::decimal(count) + " messages. Goals: "@ + (if goals.len() == 0 {
        "none recorded"@
    } else {
        crate::text::join(goals, " | "@)
    }) + ". Tool results: "@ + crate::text::decimal(ok) + " ok, "@ + crate::text::decimal(failed)
        + " failed. Files touched: "@ + (if files.len() == 0 {
        "none"@
    } else {
        crate::text::join(files, ", "@)
    }) + "."@
}

fn marked_path_exec(content: &Vec<char>, marker: &str, out: &mut Vec<String>)
    ensures
        crate::map::string_texts(final(out)@) == crate::map::string_texts(old(out)@) + opt_seq(
            marked_path(content@, marker@),
        ),
{
    let m = chars_of(marker);
    match crate::text::find_chars(content, &m) {
        Some(i) => {
            proof {
                crate::text::lemma_find_from(content@, m@, 0);
            }
            assert(crate::text::matches_at(content@, m@, i as int));
            assert(i + m.len() <= content.len());
            let rest = slice_chars(content, i + m.len(), content.len());
            assert(rest@ =~= content@.skip(i + m@.len()));
            let ls = crate::text::lines_of(&rest);
            let line = if ls.len() > 0 {
                slice_chars(&ls[0], 0, ls[0].len())
            } else {
                Vec::new()
            };
            assert(line@ =~= first_line(rest@));
            let p = trim_chars(&line);
            if p.len() > 0 {
                let ghost before = crate::map::string_texts(out@);
                out.push(string_of(&p));
                assert(crate::map::string_texts(out@) =~= before.push(p@));
            } else {
                assert(crate::map::string_texts(out@) =~= crate::map::string_texts(out@) + Seq::<Seq<char>>::empty());
            }
        },
        None => {
            assert(crate::map::string_texts(out@) =~= crate::map::string_texts(out@) + Seq::<Seq<char>>::empty());
        },
    }
}

fn join_strings(parts: &Vec<String>, sep: &str) -> (r: Vec<char>)
    ensures
        r@ == crate::text::join(crate::map::string_texts(parts@), sep@),
{
    let mut v: Vec<Vec<char>> = Vec::new();
    let mut i: usize = 0;
    while i < parts.len()
        invariant
            i <= parts@.len(),
            crate::text::views(v@) == crate::map::string_texts(parts@).take(i as int),
        decreases parts.len() - i,
    {
        let ghost before = crate::text::views(v@);
        v.push(chars_of(parts[i].as_str()));
        assert(crate::text::views(v@) =~= before.push(parts@[i as int]@));
        assert(crate::map::string_texts(parts@).take(i + 1) =~= crate::map::string_texts(parts@).take(
            i as int,
        ).push(parts@[i as int]@));
        i = i + 1;
    }
    assert(crate::map::string_texts(parts@).take(parts@.len() as int) =~= crate::map::string_texts(
        parts@,
    ));
    crate::text::join_chars(&v, sep)
}

/// Folds all but the last eight messages into one session summary and
/// returns the summary; a transcript of at most eight messages is left as
/// it is.
pub fn compact_transcript(transcript: &mut Vec<ModelMessage>) -> (r: String)
    ensures
        old(transcript)@.len() <= 8 ==> r@ == "context already compact"@ && messages_view(
            final(transcript)@,
        ) == messages_view(old(transcript)@),
        old(transcript)@.len() > 8 ==> ({
            let n = (old(transcript)@.len() - 8) as nat;
            let g = gather(messages_view(old(transcript)@).take(n as int));
            exists|files: Seq<Seq<char>>|
                sorted_set_of(files, g.3) && r@ == compact_summary_text(n, g.0, g.1, g.2, files)
                    && messages_view(final(transcript)@) == seq![
                    (MessageRole::System, "Session summary so far:\n"@ + r@),
                ] + messages_view(old(transcript)@).skip(n as int)
        }),
{
    if transcript.len() <= 8 {
        return owned("context already compact");
    }
    let ghost t = messages_view(transcript@);
    let n = transcript.len() - 8;
    let mut goals: Vec<Vec<char>> = Vec::new();
    let mut ok: usize = 0;
    let mut failed: usize = 0;
    let mut files: Vec<String> = Vec::new();
    let mut i: usize = 0;
    while i < n
        invariant
            i <= n,
            n == transcript@.len() - 8,
            t == messages_view(transcript@),
            ({
                let g = gather(t.take(i as int));
                &&& crate::text::views(goals@) == g.0
                &&& ok == g.1
                &&& failed == g.2
                &&& crate::map::string_texts(files@) == g.3
            }),
            ok <= i,
            failed <= i,
        decreases n - i,
    {
        assert(t.take(i + 1).drop_last() =~= t.take(i as int));
        assert(t.take(i + 1).last() == t[i as int]);
        let m = &transcript[i];
        if m.role == MessageRole::User {
            let ghost before = crate::text::views(goals@);
            let goal = crate::text::truncate_chars(&chars_of(m.content.as_str()), 140);
            goals.push(goal);
            assert(crate::text::views(goals@) =~= before.push(truncated(m.content@, 140)));
        } else if m.role == MessageRole::Tool {
            let c = chars_of(m.content.as_str());
            if contains_str(&c, "\"success\": true") {
                ok = ok + 1;
            }
            if contains_str(&c, "\"success\": false") {
                failed = failed + 1;
            }
            let ghost before = crate::map::string_texts(files@);
            marked_path_exec(&c, "wrote ", &mut files);
            marked_path_exec(&c, "edited ", &mut files);
            marked_path_exec(&c, "patched ", &mut files);
            assert(crate::map::string_texts(files@) =~= before + touched_paths(m.content@));
        }
        i = i + 1;
    }
    let sorted = crate::map::sorted_unique(&files);
    let mut out = chars_of("Compacted ");
    push_all(&mut out, &crate::text::usize_to_chars(n));
    push_str(&mut out, " messages. Goals: ");
    if goals.len() == 0 {
        push_str(&mut out, "none recorded");
    } else {
        push_all(&mut out, &crate::text::join_chars(&goals, " | "));
    }
    push_str(&mut out, ". Tool results: ");
    push_all(&mut out, &crate::text::usize_to_chars(ok));
    push_str(&mut out, " ok, ");
    push_all(&mut out, &crate::text::usize_to_chars(failed));
    push_str(&mut out, " failed. Files touched: ");
    if sorted.len() == 0 {
        push_str(&mut out, "none");
    } else {
        push_all(&mut out, &join_strings(&sorted, ", "));
    }
    push_str(&mut out, ".");
    let summary = string_of(&out);
    let ghost g = gather(t.take(n as int));
    assert(summary@ == compact_summary_text(n as nat, g.0, g.1, g.2, crate::map::string_texts(sorted@)));
    let mut note = chars_of("Session summary so far:\n");
    push_str(&mut note, summary.as_str());
    let mut fresh: Vec<ModelMessage> = Vec::new();
    fresh.push(ModelMessage { role: MessageRole::System, content: string_of(&note) });
    let mut k = n;
    while k < transcript.len()
        invariant
            n <= k <= transcript@.len(),
            n == transcript@.len() - 8,
            t == messages_view(transcript@),
            messages_view(fresh@) == seq![
                (MessageRole::System, "Session summary so far:\n"@ + summary@),
            ] + t.subrange(n as int, k as int),
        decreases transcript.len() - k,
    {
        let ghost before = messages_view(fresh@);
        fresh.push(transcript[k].duplicate());
        assert(messages_view(fresh@) =~= before.push(t[k as int]));
        assert(t.subrange(n as int, k + 1) =~= t.subrange(n as int, k as int).push(t[k as int]));
        k = k + 1;
    }
    assert(t.subrange(n as int, t.len() as int) =~= t.skip(n as int));
    *transcript = fresh;
    let ghost fv = crate::map::string_texts(sorted@);
    assert(t == messages_view(old(transcript)@));
    assert(n as nat == (old(transcript)@.len() - 8) as nat);
    assert(sorted_set_of(fv, g.3) && summary@ == compact_summary_text(n as nat, g.0, g.1, g.2, fv)
        && messages_view(transcript@) == seq![
        (MessageRole::System, "Session summary so far:\n"@ + summary@),
    ] + t.skip(n as int));
    summary
}

// ---------------------------------------------------------------------------
// Routing and context for a turn
// ---------------------------------------------------------------------------

/// Simple tasks: reviews, searches, finds, status checks and listings.
pub open spec fn simple_task(input: Seq<char>) -> bool {
    let l = lower(input);
    contains(l, "review"@) || contains(l, "search"@) || contains(l, "find"@) || contains(l, "status"@)
        || contains(l, "list"@)
}

/// The first model (in name order) whose profile runs on `ollama`.
pub open spec fn first_ollama(entries: Seq<(String, ModelProfile)>) -> Option<Seq<char>>
    decreases entries.len(),
{
    if entries.len() == 0 {
        None
    } else if entries[0].1.provider matches Some(p) && p@ == "ollama"@ {
        Some(entries[0].0@)
    } else {
        first_ollama(entries.drop_first())
    }
}

/// The provider and model of a turn: simple tasks go to the first model on
/// `ollama` when there is one; everything else to the selected ones.
pub open spec fn routed(
    entries: Seq<(String, ModelProfile)>,
    provider: Seq<char>,
    model: Seq<char>,
    input: Seq<char>,
) -> (Seq<char>, Seq<char>) {
    if simple_task(input) && first_ollama(entries) is Some {
        ("ollama"@, first_ollama(entries)->0)
    } else {
        (provider, model)
    }
}

pub fn routed_provider_model(state: &AgentState, user_input: &str) -> (r: (String, String))
    ensures
        (r.0@, r.1@) == routed(
            state.config.model_profiles.entries@,
            state.selected_provider@,
            state.selected_model@,
            user_input@,
        ),
{
    let l = to_lower(&chars_of(user_input));
    let simple = contains_str(&l, "review") || contains_str(&l, "search") || contains_str(&l, "find")
        || contains_str(&l, "status") || contains_str(&l, "list");
    if simple {
        let entries = &state.config.model_profiles.entries;
        let ghost ev = entries@;
        let mut i: usize = 0;
        assert(ev.skip(0) =~= ev);
        while i < entries.len()
            invariant
                i <= ev.len(),
                ev == entries@,
                ev == state.config.model_profiles.entries@,
                simple_task(user_input@),
                first_ollama(ev) == first_ollama(ev.skip(i as int)),
            decreases entries.len() - i,
        {
            assert(ev.skip(i as int)[0] == ev[i as int]);
            assert(ev.skip(i as int).drop_first() =~= ev.skip(i + 1));
            let is_ollama = match &entries[i].1.provider {
                Some(p) => crate::text::same_text(p.as_str(), "ollama"),
                None => false,
            };
            if is_ollama {
                return (owned("ollama"), entries[i].0.clone());
            }
            i = i + 1;
        }
    }
    (state.selected_provider.clone(), state.selected_model.clone())
}

/// What budgeting keeps, taking messages from the newest: a message that
/// would pass the budget is dropped unless it is a system message, and
/// taking stops once the budget is reached.
pub open spec fn budget_scan(ms: Seq<(MessageRole, Seq<char>)>, k: nat, budget: nat) -> (
    Seq<(MessageRole, Seq<char>)>,
    nat,
    bool,
)
    decreases k,
{
    if k == 0 {
        (seq![], 0, false)
    } else {
        let prev = budget_scan(ms, (k - 1) as nat, budget);
        if prev.2 {
            prev
        } else {
            let m = ms[ms.len() - k];
            let l = byte_len(m.1);
            if prev.1 + l > budget && m.0 != MessageRole::System {
                prev
            } else {
                let t = prev.1 + l;
                (seq![m] + prev.0, t, t >= budget)
            }
        }
    }
}

/// The messages that fit a context budget (in bytes), in their order; all
/// of them without a budget.
pub open spec fn budgeted(ms: Seq<(MessageRole, Seq<char>)>, budget: Option<usize>) -> Seq<
    (MessageRole, Seq<char>),
> {
    match budget {
        Some(b) => budget_scan(ms, ms.len(), b as nat).0,
        None => ms,
    }
}

#[verifier::rlimit(40)]
pub fn budget_messages(messages: Vec<ModelMessage>, budget: Option<usize>) -> (r: Vec<ModelMessage>)
    ensures
        messages_view(r@) == budgeted(messages_view(messages@), budget),
{
    let b = match budget {
        Some(b) => b,
        None => return messages,
    };
    let ghost mv = messages_view(messages@);
    let mut kept_rev: Vec<ModelMessage> = Vec::new();
    let mut total: u128 = 0;
    let mut k: usize = 0;
    let mut stopped = false;
    while k < messages.len() && !stopped
        invariant
            k <= messages@.len(),
            mv == messages_view(messages@),
            budget_scan(mv, k as nat, b as nat).1 == total,
            budget_scan(mv, k as nat, b as nat).2 == stopped,
            !stopped ==> total <= b,
            messages_view(kept_rev@).reverse() == budget_scan(mv, k as nat, b as nat).0,
        decreases messages.len() - k,
    {
        let m = &messages[messages.len() - 1 - k];
        assert(mv[mv.len() - (k + 1)] == message_view_of(m));
        let l = byte_len_exec(m.content.as_str());
        if total + l > b as u128 && m.role != MessageRole::System {
        } else {
            total = total + l;
            let ghost before = messages_view(kept_rev@);
            kept_rev.push(m.duplicate());
            assert(messages_view(kept_rev@) =~= before.push(mv[mv.len() - (k + 1)]));
            assert(messages_view(kept_rev@).reverse() =~= seq![mv[mv.len() - (k + 1)]] + before.reverse());
            if total >= b as u128 {
                stopped = true;
            }
        }
        k = k + 1;
    }
    proof {
        if stopped {
            lemma_budget_stopped(mv, k as nat, b as nat);
        }
    }
    let mut r: Vec<ModelMessage> = Vec::new();
    let mut j = kept_rev.len();
    while j > 0
        invariant
            j <= kept_rev@.len(),
            messages_view(r@) == messages_view(kept_rev@).reverse().take(
                kept_rev@.len() - j,
            ),
        decreases j,
    {
        let ghost before = messages_view(r@);
        let ghost rev = messages_view(kept_rev@).reverse();
        r.push(kept_rev[j - 1].duplicate());
        assert(rev[kept_rev@.len() - j] == messages_view(kept_rev@)[j - 1]);
        assert(rev.take(kept_rev@.len() - (j - 1)) =~= rev.take(kept_rev@.len() - j).push(
            rev[kept_rev@.len() - j],
        ));
        assert(messages_view(r@) =~= before.push(messages_view(kept_rev@)[j - 1]));
        j = j - 1;
    }
    assert(messages_view(kept_rev@).reverse().take(kept_rev@.len() as int) =~= messages_view(
        kept_rev@,
    ).reverse());
    r
}

pub open spec fn message_view_of(m: &ModelMessage) -> (MessageRole, Seq<char>) {
    (m.role, m.content@)
}

/// Once taking stopped, later messages change nothing.
proof fn lemma_budget_stopped(ms: Seq<(MessageRole, Seq<char>)>, k: nat, budget: nat)
    requires
        budget_scan(ms, k, budget).2,
        k <= ms.len(),
    ensures
        budget_scan(ms, ms.len(), budget) == budget_scan(ms, k, budget),
    decreases ms.len() - k,
{
    if k < ms.len() {
        assert(budget_scan(ms, k + 1, budget) == budget_scan(ms, k, budget));
        lemma_budget_stopped(ms, k + 1, budget);
    }
}

/// The punctuation stripped from around words that may name files.
pub open spec fn token_punct() -> Seq<char> {
    seq!['"', '\'', '`', ',', '.', ':', ';']
}

/// The words of a request that may name files: stripped of quotes and
/// punctuation, holding a dot or a path separator.
pub open spec fn file_token_texts(ws: Seq<Seq<char>>) -> Seq<Seq<char>>
    decreases ws.len(),
{
    if ws.len() == 0 {
        seq![]
    } else {
        let prev = file_token_texts(ws.drop_last());
        let c = crate::text::trim_set(ws.last(), token_punct());
        if c.contains('.') || c.contains('/') || c.contains('\\') {
            prev.push(c)
        } else {
            prev
        }
    }
}

fn has_char(v: &Vec<char>, c: char) -> (r: bool)
    ensures
        r == v@.contains(c),
{
    let mut i: usize = 0;
    while i < v.len()
        invariant
            i <= v.len(),
            forall|k: int| 0 <= k < i ==> v@[k] != c,
        decreases v.len() - i,
    {
        if v[i] == c {
            assert(v@[i as int] == c);
            return true;
        }
        i = i + 1;
    }
    false
}

/// The words of a request that may name files; the caller keeps those
/// that are files of the workspace.
pub fn file_tokens(user_input: &str) -> (r: Vec<String>)
    ensures
        crate::map::string_texts(r@) == file_token_texts(crate::text::words(user_input@)),
{
    let ws = crate::text::words_of(&chars_of(user_input));
    let ghost wv = crate::text::views(ws@);
    let punct = vec!['"', '\'', '`', ',', '.', ':', ';'];
    assert(punct@ =~= token_punct());
    let mut r: Vec<String> = Vec::new();
    let mut i: usize = 0;
    while i < ws.len()
        invariant
            i <= ws@.len(),
            wv == crate::text::views(ws@),
            wv == crate::text::words(user_input@),
            punct@ == token_punct(),
            crate::map::string_texts(r@) == file_token_texts(wv.take(i as int)),
        decreases ws.len() - i,
    {
        assert(wv.take(i + 1).drop_last() =~= wv.take(i as int));
        assert(wv.take(i + 1).last() == ws@[i as int]@);
        let c = crate::text::trim_set_exec(&ws[i], &punct);
        if has_char(&c, '.') || has_char(&c, '/') || has_char(&c, '\\') {
            let ghost before = crate::map::string_texts(r@);
            r.push(string_of(&c));
            assert(crate::map::string_texts(r@) =~= before.push(c@));
        }
        i = i + 1;
    }
    assert(wv.take(ws@.len() as int) =~= wv);
    r
}

/// The paths a diff adds to (`+++ b/` lines), in order.
pub open spec fn diff_targets(ls: Seq<Seq<char>>) -> Seq<Seq<char>>
    decreases ls.len(),
{
    if ls.len() == 0 {
        seq![]
    } else {
        let prev = diff_targets(ls.drop_last());
        if crate::text::starts_with(ls.last(), "+++ b/"@) {
            prev.push(ls.last().skip(6))
        } else {
            prev
        }
    }
}

/// The context note naming the files a turn likely needs: the given
/// existing files (with forward slashes) and the files the diff touches,
/// in order and once each, at most eight; `None` when there are none.
pub open spec fn file_context_note(files: Seq<Seq<char>>) -> Seq<char> {
    "Likely relevant files for this turn:\n"@ + crate::text::join(files, "\n"@)
}

pub fn selected_file_context(existing_files: &Vec<String>, diff: &str) -> (r: Option<String>)
    ensures
        ({
            let raw = existing_files@.map_values(|f: String| crate::text::replace_char(f@, '\\', '/'))
                + diff_targets(crate::text::lines(diff@));
            match r {
                Some(note) => exists|all: Seq<Seq<char>>|
                    sorted_set_of(all, raw) && all.len() > 0 && note@ == file_context_note(
                        all.take(if all.len() < 8 {
                            all.len() as int
                        } else {
                            8
                        }),
                    ),
                None => raw.len() == 0,
            }
        }),
{
    let ghost ev = existing_files@.map_values(|f: String| crate::text::replace_char(f@, '\\', '/'));
    let mut files: Vec<String> = Vec::new();
    let mut i: usize = 0;
    while i < existing_files.len()
        invariant
            i <= existing_files@.len(),
            ev == existing_files@.map_values(|f: String| crate::text::replace_char(f@, '\\', '/')),
            crate::map::string_texts(files@) == ev.take(i as int),
        decreases existing_files.len() - i,
    {
        let f = crate::text::replace_char_exec(&chars_of(existing_files[i].as_str()), '\\', '/');
        let ghost before = crate::map::string_texts(files@);
        files.push(string_of(&f));
        assert(crate::map::string_texts(files@) =~= before.push(ev[i as int]));
        assert(ev.take(i + 1) =~= ev.take(i as int).push(ev[i as int]));
        i = i + 1;
    }
    assert(ev.take(existing_files@.len() as int) =~= ev);
    let ls = crate::text::lines_of(&chars_of(diff));
    let ghost lv = crate::text::views(ls@);
    let mut k: usize = 0;
    while k < ls.len()
        invariant
            k <= ls@.len(),
            lv == crate::text::views(ls@),
            crate::map::string_texts(files@) == ev + diff_targets(lv.take(k as int)),
        decreases ls.len() - k,
    {
        assert(lv.take(k + 1).drop_last() =~= lv.take(k as int));
        assert(lv.take(k + 1).last() == ls@[k as int]@);
        if crate::text::starts_with_str(&ls[k], "+++ b/") {
            proof {
                reveal_strlit("+++ b/");
            }
            let rest = slice_chars(&ls[k], 6, ls[k].len());
            assert(rest@ =~= ls@[k as int]@.skip(6));
            let ghost before = crate::map::string_texts(files@);
            files.push(string_of(&rest));
            assert(crate::map::string_texts(files@) =~= before.push(rest@));
        }
        k = k + 1;
    }
    assert(lv.take(ls@.len() as int) =~= lv);
    let sorted = crate::map::sorted_unique(&files);
    if sorted.len() == 0 {
        proof {
            let raw = ev + diff_targets(lv);
            if raw.len() > 0 {
                assert(raw.contains(raw[0]));
                assert(crate::map::string_texts(sorted@).contains(raw[0]));
            }
        }
        return None;
    }
    let n: usize = if sorted.len() < 8 {
        sorted.len()
    } else {
        8
    };
    let mut top: Vec<String> = Vec::new();
    let mut j: usize = 0;
    while j < n
        invariant
            j <= n <= sorted@.len(),
            crate::map::string_texts(top@) == crate::map::string_texts(sorted@).take(j as int),
        decreases n - j,
    {
        let ghost before = crate::map::string_texts(top@);
        top.push(sorted[j].clone());
        assert(crate::map::string_texts(top@) =~= before.push(sorted@[j as int]@));
        assert(crate::map::string_texts(sorted@).take(j + 1) =~= crate::map::string_texts(sorted@).take(
            j as int,
        ).push(sorted@[j as int]@));
        j = j + 1;
    }
    let mut out = chars_of("Likely relevant files for this turn:\n");
    push_all(&mut out, &join_strings(&top, "\n"));
    let ghost all = crate::map::string_texts(sorted@);
    assert(sorted_set_of(all, ev + diff_targets(lv)) && all.len() > 0 && out@ == file_context_note(
        all.take(n as int),
    ));
    Some(string_of(&out))
}

// ---------------------------------------------------------------------------
// Inferring a file write from a plain reply
// ---------------------------------------------------------------------------

pub open spec fn path_punct() -> Seq<char> {
    seq!['"', '\'', '`', ',', '.', ':']
}

pub open spec fn web_file(c: Seq<char>) -> bool {
    crate::text::ends_with(c, ".html"@) || crate::text::ends_with(c, ".css"@) || crate::text::ends_with(
        c,
        ".js"@,
    ) || crate::text::ends_with(c, ".json"@) || crate::text::ends_with(c, ".md"@)
}

/// The first word naming a web or docs file, stripped of punctuation.
pub open spec fn first_named_file(ws: Seq<Seq<char>>) -> Option<Seq<char>>
    decreases ws.len(),
{
    if ws.len() == 0 {
        None
    } else {
        let c = crate::text::trim_set(ws[0], path_punct());
        if web_file(c) {
            Some(c)
        } else {
            first_named_file(ws.drop_first())
        }
    }
}

/// The file a request to create something names: its first web or docs
/// file name (with forward slashes), else `index.html` for a web page or
/// HTML; only for requests to create, write, generate or make.
pub open spec fn target_path(input: Seq<char>) -> Option<Seq<char>> {
    let l = lower(input);
    if !(contains(l, "create"@) || contains(l, "write"@) || contains(l, "generate"@) || contains(
        l,
        "make"@,
    )) {
        None
    } else {
        match first_named_file(crate::text::words(input)) {
            Some(c) => Some(crate::text::replace_char(c, '\\', '/')),
            None => if contains(l, "web page"@) || contains(l, "html"@) {
                Some("index.html"@)
            } else {
                None
            },
        }
    }
}

pub fn infer_target_path(user_input: &str) -> (r: Option<String>)
    ensures
        crate::tools::opt_text(r) == target_path(user_input@),
{
    let l = to_lower(&chars_of(user_input));
    if !(contains_str(&l, "create") || contains_str(&l, "write") || contains_str(&l, "generate")
        || contains_str(&l, "make")) {
        return None;
    }
    let ws = crate::text::words_of(&chars_of(user_input));
    let ghost wv = crate::text::views(ws@);
    let punct = vec!['"', '\'', '`', ',', '.', ':'];
    assert(punct@ =~= path_punct());
    let mut i: usize = 0;
    assert(wv.skip(0) =~= wv);
    while i < ws.len()
        invariant
            i <= ws@.len(),
            wv == crate::text::views(ws@),
            wv == crate::text::words(user_input@),
            l@ == lower(user_input@),
            contains(l@, "create"@) || contains(l@, "write"@) || contains(l@, "generate"@) || contains(
                l@,
                "make"@,
            ),
            punct@ == path_punct(),
            first_named_file(wv) == first_named_file(wv.skip(i as int)),
        decreases ws.len() - i,
    {
        assert(wv.skip(i as int)[0] == ws@[i as int]@);
        assert(wv.skip(i as int).drop_first() =~= wv.skip(i + 1));
        let c = crate::text::trim_set_exec(&ws[i], &punct);
        if crate::text::ends_with_str(&c, ".html") || crate::text::ends_with_str(&c, ".css")
            || crate::text::ends_with_str(&c, ".js") || crate::text::ends_with_str(&c, ".json")
            || crate::text::ends_with_str(&c, ".md") {
            return Some(string_of(&crate::text::replace_char_exec(&c, '\\', '/')));
        }
        i = i + 1;
    }
    if contains_str(&l, "web page") || contains_str(&l, "html") {
        return Some(owned("index.html"));
    }
    None
}

/// The body of the first fenced block, trimmed: after the rest of the
/// opening fence's line (or right after the fence when no line break
/// follows), up to the next fence.
pub open spec fn first_fenced(text: Seq<char>) -> Option<Seq<char>> {
    match crate::text::find(text, "```"@) {
        None => None,
        Some(start) => {
            let body_start = match crate::text::find_from(text, seq!['\n'], start + 3) {
                Some(nl) => nl + 1,
                None => start + 3,
            };
            match crate::text::find_from(text, "```"@, body_start) {
                Some(end) => Some(trim(text.subrange(body_start, end))),
                None => None,
            }
        },
    }
}

pub fn first_fenced_block(text: &str) -> (r: Option<String>)
    ensures
        crate::tools::opt_text(r) == first_fenced(text@),
{
    let t = chars_of(text);
    proof {
        reveal_strlit("```");
    }
    let start = match crate::text::find_str_from(&t, "```", 0) {
        Some(s) => s,
        None => return None,
    };
    proof {
        crate::text::lemma_find_from(t@, "```"@, 0);
    }
    assert(crate::text::matches_at(t@, "```"@, start as int));
    assert(start + 3 <= t.len());
    let nl = vec!['\n'];
    assert(nl@ =~= seq!['\n']);
    let body_start = match crate::text::find_chars_from(&t, &nl, start + 3) {
        Some(i) => {
            proof {
                crate::text::lemma_find_from(t@, seq!['\n'], start + 3);
            }
            assert(crate::text::matches_at(t@, seq!['\n'], i as int));
            i + 1
        },
        None => start + 3,
    };
    match crate::text::find_str_from(&t, "```", body_start) {
        Some(end) => {
            proof {
                crate::text::lemma_find_from(t@, "```"@, body_start as int);
            }
            Some(string_of(&trim_chars(&slice_chars(&t, body_start, end))))
        },
        None => None,
    }
}

/// The text between an opening fence (with the given language) and a
/// closing fence, trimmed, when the whole text is so fenced.
pub open spec fn unfenced(text: Seq<char>, language: Seq<char>) -> Option<Seq<char>> {
    let open = "```"@ + language;
    if crate::text::starts_with(text, open) && crate::text::ends_with(text.skip(open.len() as int), "```"@) {
        let rest = text.skip(open.len() as int);
        Some(trim(rest.take(rest.len() - 3)))
    } else {
        None
    }
}

pub fn strip_fence(text: &str, language: &str) -> (r: Option<String>)
    ensures
        crate::tools::opt_text(r) == unfenced(text@, language@),
{
    proof {
        reveal_strlit("```");
    }
    let mut open = chars_of("```");
    push_str(&mut open, language);
    let t = chars_of(text);
    if !crate::text::starts_with_chars(&t, &open) {
        return None;
    }
    let rest = slice_chars(&t, open.len(), t.len());
    assert(rest@ =~= t@.skip(open@.len() as int));
    if !crate::text::ends_with_str(&rest, "```") {
        return None;
    }
    let body = slice_chars(&rest, 0, rest.len() - 3);
    assert(body@ =~= rest@.take(rest@.len() - 3));
    Some(string_of(&trim_chars(&body)))
}

/// A reply as file content: its first fenced block, else the whole reply
/// unfenced from `html` or plain fences, else the trimmed reply.
pub open spec fn cleaned_content(response: Seq<char>) -> Seq<char> {
    let t = trim(response);
    match first_fenced(t) {
        Some(b) => b,
        None => match unfenced(t, "html"@) {
            Some(b) => b,
            None => match unfenced(t, Seq::<char>::empty()) {
                Some(b) => b,
                None => t,
            },
        },
    }
}

pub fn clean_file_content(response: &str) -> (r: String)
    ensures
        r@ == cleaned_content(response@),
{
    let t = string_of(&trim_chars(&chars_of(response)));
    if let Some(b) = first_fenced_block(t.as_str()) {
        return b;
    }
    if let Some(b) = strip_fence(t.as_str(), "html") {
        return b;
    }
    let empty = String::new();
    if let Some(b) = strip_fence(t.as_str(), empty.as_str()) {
        return b;
    }
    t
}

/// Content fits its file: HTML files start with a doctype or `<html`,
/// JSON files with a brace or bracket, other files are not blank.
pub open spec fn fits_file(content: Seq<char>, path: Seq<char>) -> bool {
    let t = crate::text::trim_start(content);
    if crate::text::ends_with(path, ".html"@) {
        crate::text::starts_with(t, "<!DOCTYPE html"@) || crate::text::starts_with(t, "<!doctype html"@)
            || crate::text::starts_with(t, "<html"@)
    } else if crate::text::ends_with(path, ".json"@) {
        crate::text::starts_with(t, seq!['{']) || crate::text::starts_with(t, seq!['['])
    } else {
        t.len() > 0
    }
}

pub fn looks_like_file_content(content: &str, path: &str) -> (r: bool)
    ensures
        r == fits_file(content@, path@),
{
    let c = chars_of(content);
    let a = crate::text::trim_start_index(&c);
    let t = slice_chars(&c, a, c.len());
    assert(t@ =~= c@.skip(a as int));
    let p = chars_of(path);
    if crate::text::ends_with_str(&p, ".html") {
        crate::text::starts_with_str(&t, "<!DOCTYPE html") || crate::text::starts_with_str(
            &t,
            "<!doctype html",
        ) || crate::text::starts_with_str(&t, "<html")
    } else if crate::text::ends_with_str(&p, ".json") {
        let brace = vec!['{'];
        let bracket = vec!['['];
        assert(brace@ =~= seq!['{']);
        assert(bracket@ =~= seq!['[']);
        crate::text::starts_with_chars(&t, &brace) || crate::text::starts_with_chars(&t, &bracket)
    } else {
        t.len() > 0
    }
}

/// The `write_file` call a plain reply amounts to, for a request that
/// names a file to create and a reply that looks like its content.
pub open spec fn inferred_write(input: Seq<char>, response: Seq<char>) -> Option<CallView> {
    match target_path(input) {
        Some(path) => {
            let content = cleaned_content(response);
            if fits_file(content, path) {
                Some(("write_file"@, crate::parser::write_file_arguments(path, content), None))
            } else {
                None
            }
        },
        None => None,
    }
}

pub fn infer_file_write(user_input: &str, response: &str) -> (r: Option<ToolCall>)
    ensures
        match r {
            Some(c) => inferred_write(user_input@, response@) == Some(call_view(c)),
            None => inferred_write(user_input@, response@) is None,
        },
{
    let path = match infer_target_path(user_input) {
        Some(p) => p,
        None => return None,
    };
    let content = clean_file_content(response);
    if !looks_like_file_content(content.as_str(), path.as_str()) {
        return None;
    }
    let args = crate::parser::write_file_arguments_exec(path, content);
    Some(ToolCall { tool: owned("write_file"), arguments: args, call_id: None })
}

/// The members of a JSON object as fields, the `path` member holding the
/// string `path` and every other member its own JSON text.
pub open spec fn path_replaced(entries: Seq<(Seq<char>, Seq<char>)>, path: Seq<char>) -> Seq<
    (Seq<char>, JsonFieldView),
> {
    entries.map_values(
        |e: (Seq<char>, Seq<char>)|
            if e.0 == "path"@ {
                (e.0, JsonFieldView::Str(path))
            } else {
                (e.0, JsonFieldView::Text(e.1))
            },
    )
}

/// Placeholder names a small model may write instead of a real path.
pub open spec fn vague_path(p: Seq<char>) -> bool {
    p == "file"@ || p == "output"@ || p == "untitled"@ || p == "page"@
}

/// The arguments of a call after its vague `write_file` path is replaced
/// by the file the request names.
pub open spec fn normalized_arguments(input: Seq<char>, tool: Seq<char>, args: Seq<char>) -> Seq<char> {
    if tool != "write_file"@ {
        args
    } else {
        match crate::json::string_member(args, "path"@) {
            Some(current) => if vague_path(current) {
                match (target_path(input), crate::json::json_top(args)) {
                    (Some(t), Some(crate::json::JsonTopView::Object(entries))) => {
                        let fields = path_replaced(entries, t);
                        if crate::json::texts_read(fields) {
                            crate::json::object_text_of(fields)
                        } else {
                            args
                        }
                    },
                    _ => args,
                }
            } else {
                args
            },
            None => args,
        }
    }
}

pub fn normalize_local_tool_path(user_input: &str, call: &mut ToolCall)
    ensures
        final(call).tool == old(call).tool,
        final(call).call_id == old(call).call_id,
        final(call).arguments@ == normalized_arguments(user_input@, old(call).tool@, old(call).arguments@),
{
    if !crate::text::same_text(call.tool.as_str(), "write_file") {
        return ;
    }
    let current = match crate::json::string_member_exec(call.arguments.as_str(), "path") {
        Some(c) => c,
        None => return ,
    };
    let c = current.as_str();
    if !(crate::text::same_text(c, "file") || crate::text::same_text(c, "output")
        || crate::text::same_text(c, "untitled") || crate::text::same_text(c, "page")) {
        return ;
    }
    let target = match infer_target_path(user_input) {
        Some(t) => t,
        None => return ,
    };
    let entries = match crate::json::json_inspect(call.arguments.as_str()) {
        Some(crate::json::JsonTop::Object(e)) => e,
        _ => return ,
    };
    let ghost pv = crate::json::pairs_view(entries@);
    let ghost want = path_replaced(pv, target@);
    let mut fields: Vec<(String, JsonField)> = Vec::new();
    let mut i: usize = 0;
    while i < entries.len()
        invariant
            i <= entries@.len(),
            pv == crate::json::pairs_view(entries@),
            want == path_replaced(pv, target@),
            crate::json::fields_view(fields@) == want.take(i as int),
        decreases entries.len() - i,
    {
        let ghost before = crate::json::fields_view(fields@);
        if crate::text::same_text(entries[i].0.as_str(), "path") {
            fields.push((entries[i].0.clone(), JsonField::Str(target.clone())));
        } else {
            fields.push((entries[i].0.clone(), JsonField::Text(entries[i].1.clone())));
        }
        assert(crate::json::fields_view(fields@) =~= before.push(want[i as int]));
        assert(want.take(i + 1) =~= want.take(i as int).push(want[i as int]));
        i = i + 1;
    }
    assert(want.take(entries@.len() as int) =~= want);
    assert(crate::json::distinct_keys(want)) by {
        assert forall|a: int, b: int| 0 <= a < b < want.len() implies #[trigger] want[a].0 != #[trigger] want[b].0 by {
            assert(want[a].0 == entries@[a].0@ && want[b].0 == entries@[b].0@);
        }
    }
    if let Some(t) = crate::json::json_object(&fields) {
        call.arguments = t;
    }
}

// ---------------------------------------------------------------------------
// Git output
// ---------------------------------------------------------------------------

/// What a git command printed: its output without trailing whitespace, or
/// its error output trimmed when it printed nothing.
pub open spec fn git_output_text(stdout: Seq<char>, stderr: Seq<char>) -> Seq<char> {
    if crate::text::is_blank(stdout) {
        trim(stderr)
    } else {
        crate::text::trim_end(stdout)
    }
}

pub fn git_output(stdout: &str, stderr: &str) -> (r: String)
    ensures
        r@ == git_output_text(stdout@, stderr@),
{
    let out = chars_of(stdout);
    if crate::text::is_blank_chars(&out) {
        string_of(&trim_chars(&chars_of(stderr)))
    } else {
        string_of(&crate::text::trim_end_chars(&out))
    }
}

/// The branch `git rev-parse --abbrev-ref HEAD` printed, or `no-git`.
pub open spec fn branch_text(output: Seq<char>) -> Seq<char> {
    if crate::text::starts_with(output, "fatal:"@) || crate::text::is_blank(output) {
        "no-git"@
    } else {
        crate::text::lines(output)[0]
    }
}

pub fn git_branch(output: &str) -> (r: String)
    ensures
        r@ == branch_text(output@),
{
    let o = chars_of(output);
    if crate::text::starts_with_str(&o, "fatal:") || crate::text::is_blank_chars(&o) {
        return owned("no-git");
    }
    let ls = crate::text::lines_of(&o);
    proof {
        crate::text::lemma_lines_nonempty(o@);
    }
    string_of(&slice_chars(&ls[0], 0, ls[0].len()))
}

/// `clean`, `dirty` or `no-git`, from `git status --short`.
pub open spec fn repo_state_text(output: Seq<char>) -> Seq<char> {
    if crate::text::starts_with(output, "fatal:"@) {
        "no-git"@
    } else if crate::text::is_blank(output) {
        "clean"@
    } else {
        "dirty"@
    }
}

pub fn git_repo_state(output: &str) -> (r: String)
    ensures
        r@ == repo_state_text(output@),
{
    let o = chars_of(output);
    if crate::text::starts_with_str(&o, "fatal:") {
        owned("no-git")
    } else if crate::text::is_blank_chars(&o) {
        owned("clean")
    } else {
        owned("dirty")
    }
}

/// `git status --short --branch` output, or `clean` when it printed nothing.
pub fn git_status(output: &str) -> (r: String)
    ensures
        r@ == if crate::text::is_blank(output@) {
            "clean"@
        } else {
            output@
        },
{
    if crate::text::is_blank_chars(&chars_of(output)) {
        owned("clean")
    } else {
        owned(output)
    }
}

/// The diff statistics, then the diff, a line apart when both are there.
pub fn git_diff(stat: &str, diff: &str) -> (r: String)
    ensures
        r@ == stat@ + (if !crate::text::is_blank(stat@) && !crate::text::is_blank(diff@) {
            "\n"@
        } else {
            Seq::<char>::empty()
        }) + diff@,
{
    let mut out = chars_of(stat);
    if !crate::text::is_blank_chars(&out) && !crate::text::is_blank_chars(&chars_of(diff)) {
        push_str(&mut out, "\n");
    } else {
        assert(out@ + Seq::<char>::empty() =~= out@);
    }
    push_str(&mut out, diff);
    string_of(&out)
}

// ---------------------------------------------------------------------------
// One turn of the agent
// ---------------------------------------------------------------------------

/// A tool call as its session event records it: the object `serde_json`
/// makes of the call, members in key order, the arguments written as the
/// JSON text the call carries.
pub open spec fn call_payload(c: CallView) -> Seq<char> {
    "{\"arguments\":"@ + c.1 + ",\"call_id\":"@ + match c.2 {
        Some(id) => crate::json::json_string_literal(id),
        None => "null"@,
    } + ",\"tool\":"@ + crate::json::json_string_literal(c.0) + "}"@
}

pub fn call_payload_exec(c: &ToolCall) -> (r: String)
    ensures
        r@ == call_payload(call_view(*c)),
{
    let mut out = chars_of("{\"arguments\":");
    push_str(&mut out, c.arguments.as_str());
    push_str(&mut out, ",\"call_id\":");
    let id = match &c.call_id {
        Some(id) => crate::json::json_quote(id.as_str()),
        None => owned("null"),
    };
    push_str(&mut out, id.as_str());
    push_str(&mut out, ",\"tool\":");
    push_str(&mut out, crate::json::json_quote(c.tool.as_str()).as_str());
    push_str(&mut out, "}");
    string_of(&out)
}

/// The fields of a tool result as its session event records it.
pub open spec fn result_fields(r: (Seq<char>, bool, Seq<char>)) -> Seq<(Seq<char>, JsonFieldView)> {
    seq![
        ("tool"@, JsonFieldView::Str(r.0)),
        ("success"@, JsonFieldView::Bool(r.1)),
        ("content"@, JsonFieldView::Str(r.2)),
    ]
}

/// A tool result as its session event records it: the object of
/// [`result_fields`] as `serde_json` writes it.
pub open spec fn result_payload(r: (Seq<char>, bool, Seq<char>)) -> Seq<char> {
    crate::json::object_text_of(result_fields(r))
}

pub fn result_payload_exec(r: &ToolResult) -> (p: String)
    ensures
        p@ == result_payload(crate::tools::result_view(*r)),
{
    let fields = vec![
        (owned("tool"), JsonField::Str(r.tool.clone())),
        (owned("success"), JsonField::Bool(r.success)),
        (owned("content"), JsonField::Str(r.content.clone())),
    ];
    proof {
        let fv = crate::json::fields_view(fields@);
        assert(fv =~= result_fields(crate::tools::result_view(*r)));
        assert(crate::json::texts_read(fv));
    }
    match crate::json::json_object(&fields) {
        Some(p) => p,
        None => {
            assert(false);
            String::new()
        },
    }
}

pub type EventView = (Seq<char>, Seq<char>);

pub open spec fn events_view(v: Seq<(String, String)>) -> Seq<EventView> {
    crate::json::pairs_view(v)
}

/// The calls with vague `write_file` paths replaced.
pub open spec fn normalized_calls(input: Seq<char>, cs: Seq<CallView>) -> Seq<CallView> {
    cs.map_values(|c: CallView| (c.0, normalized_arguments(input, c.0, c.1), c.2))
}

/// The calls that only read.
pub open spec fn allowed_calls(cs: Seq<CallView>) -> Seq<CallView>
    decreases cs.len(),
{
    if cs.len() == 0 {
        seq![]
    } else if read_only_tool(cs.last().0) {
        allowed_calls(cs.drop_last()).push(cs.last())
    } else {
        allowed_calls(cs.drop_last())
    }
}

/// The results plan mode gives the calls it does not run.
pub open spec fn blocked_results(cs: Seq<CallView>) -> Seq<(Seq<char>, bool, Seq<char>)>
    decreases cs.len(),
{
    if cs.len() == 0 {
        seq![]
    } else if read_only_tool(cs.last().0) {
        blocked_results(cs.drop_last())
    } else {
        blocked_results(cs.drop_last()).push((cs.last().0, false, plan_block_text()))
    }
}

/// The state of one turn of the agent between model replies.
#[derive(Debug)]
pub struct AgentTurn {
    pub user_input: String,
    pub mode: TurnMode,
    pub final_visible: String,
    pub turns_left: usize,
    pub blocked: Vec<ToolResult>,
}

/// A request for a turn, and the provider to send it to.
#[derive(Debug)]
pub struct TurnRequest {
    pub provider: String,
    pub request: ModelRequest,
}

/// What to do after a model reply.
#[derive(Debug)]
pub enum TurnStep {
    /// Run these calls, in order, and hand their results back.
    Execute(Vec<ToolCall>),
    /// The turn is over with this output.
    Finish(String),
}

pub open spec fn turn_limit_text(n: usize) -> Seq<char> {
    "agent reached max turn limit ("@ + crate::text::decimal(n as nat) + ") before completing"@
}

/// The visible output so far, with a reply's visible text added.
pub open spec fn add_visible(so_far: Seq<char>, text: Seq<char>) -> Seq<char> {
    let v = trim(crate::parser::visible_text(text));
    if v.len() == 0 {
        so_far
    } else if so_far.len() == 0 {
        v
    } else {
        so_far + "\n\n"@ + v
    }
}

/// The calls a reply asks for: those written in it, else for an
/// implementing turn a file write it amounts to.
pub open spec fn turn_calls(input: Seq<char>, mode: TurnMode, text: Seq<char>) -> Seq<CallView> {
    let written = crate::parser::parsed_calls(text);
    if written.len() == 0 && mode == TurnMode::Implement {
        match inferred_write(input, text) {
            Some(c) => seq![c],
            None => seq![],
        }
    } else {
        written
    }
}

/// The session events of a reply: the reply, an inferred call, and each
/// call to run.
pub open spec fn response_events(input: Seq<char>, mode: TurnMode, text: Seq<char>) -> Seq<EventView> {
    let inferred = if crate::parser::parsed_calls(text).len() == 0 && mode == TurnMode::Implement {
        match inferred_write(input, text) {
            Some(c) => seq![("inferred_tool_call"@, call_payload(c))],
            None => seq![],
        }
    } else {
        seq![]
    };
    seq![("assistant"@, text_payload(text))] + inferred + normalized_calls(
        input,
        turn_calls(input, mode, text),
    ).map_values(|c: CallView| ("tool_call"@, call_payload(c)))
}

/// The finishing output after a write by a model that writes simple JSON
/// actions: the first successful write's report, after the visible text.
pub open spec fn first_write(rs: Seq<(Seq<char>, bool, Seq<char>)>) -> Option<Seq<char>>
    decreases rs.len(),
{
    if rs.len() == 0 {
        None
    } else if rs[0].1 && rs[0].0 == "write_file"@ {
        Some(rs[0].2)
    } else {
        first_write(rs.drop_first())
    }
}

pub open spec fn write_finish(so_far: Seq<char>, summary: Seq<char>) -> Seq<char> {
    if trim(so_far).len() == 0 {
        summary
    } else {
        trim(so_far) + "\n\n"@ + summary
    }
}

impl AgentState {
    /// Starts a turn on a request: records it and adds it to the
    /// transcript.
    pub fn begin_turn(&mut self, user_input: &str, mode: TurnMode) -> (r: (AgentTurn, Vec<(String, String)>))
        ensures
            r.0.user_input@ == user_input@,
            r.0.mode == mode,
            r.0.final_visible@.len() == 0,
            r.0.turns_left == old(self).config.max_agent_turns,
            r.0.blocked@.len() == 0,
            events_view(r.1@) == seq![("user"@, text_payload(user_input@))],
            messages_view(final(self).transcript@) == messages_view(old(self).transcript@).push(
                (MessageRole::User, user_input@),
            ),
            final(self).config == old(self).config,
            final(self).context == old(self).context,
            final(self).session_id == old(self).session_id,
            final(self).selected_provider == old(self).selected_provider,
            final(self).selected_model == old(self).selected_model,
            final(self).effort_override == old(self).effort_override,
            final(self).work_mode == old(self).work_mode,
            final(self).pending_plan == old(self).pending_plan,
            restore_fold(old(self).restore_view(), events_view(r.1@)) == final(self).restore_view(),
    {
        let ghost before = messages_view(self.transcript@);
        self.transcript.push(ModelMessage { role: MessageRole::User, content: owned(user_input) });
        assert(messages_view(self.transcript@) =~= before.push((MessageRole::User, user_input@)));
        let mut events: Vec<(String, String)> = Vec::new();
        let ghost v0 = old(self).restore_view();
        let payload = text_payload_exec(user_input);
        events.push((owned("user"), payload));
        assert(events_view(events@) =~= seq![("user"@, text_payload(user_input@))]);
        proof {
            lemma_restore_one(v0, ("user"@, text_payload(user_input@)));
            reveal_event_kinds();
        }
        (
            AgentTurn {
                user_input: owned(user_input),
                mode,
                final_visible: String::new(),
                turns_left: self.config.max_agent_turns,
                blocked: Vec::new(),
            },
            events,
        )
    }
}

/// The messages of a turn's request before budgeting: the system
/// messages, the plan-mode prompt in a planning turn, the file note, and
/// the transcript.
pub open spec fn turn_messages(
    state: AgentState,
    mode: TurnMode,
    note: Option<Seq<char>>,
) -> Seq<(MessageRole, Seq<char>)> {
    system_texts_for(
        crate::subagents::profile_of(state.config, state.selected_model@),
        state.context.workspace@,
        instructions_text(state.context.instruction_files@),
    ) + (if mode == TurnMode::PlanOnly {
        seq![(MessageRole::System, plan_mode_prompt_text())]
    } else {
        seq![]
    }) + (match note {
        Some(n) => seq![(MessageRole::System, n)],
        None => seq![],
    }) + messages_view(state.transcript@)
}

pub open spec fn prompt_cut_message() -> Seq<char> {
    "the model's prompt size limit falls inside a character"@
}

impl AgentTurn {
    /// The next request: to the routed provider and model, with the turn's
    /// messages cut to the routed model's context budget. Fails when no
    /// turn is left, or when the selected model's prompt cannot be cut at
    /// its limit.
    pub fn next_request(&mut self, state: &AgentState, file_context: Option<String>) -> (r: Result<
        TurnRequest,
        String,
    >)
        requires
            state.wf(),
        ensures
            final(self).user_input == old(self).user_input,
            final(self).mode == old(self).mode,
            final(self).final_visible == old(self).final_visible,
            final(self).blocked == old(self).blocked,
            match r {
                Ok(req) => {
                    let routed_pm = routed(
                        state.config.model_profiles.entries@,
                        state.selected_provider@,
                        state.selected_model@,
                        old(self).user_input@,
                    );
                    &&& old(self).turns_left > 0
                    &&& state.prompt_fits()
                    &&& final(self).turns_left == old(self).turns_left - 1
                    &&& req.provider@ == routed_pm.0
                    &&& req.request.model@ == routed_pm.1
                    &&& messages_view(req.request.messages@) == budgeted(
                        turn_messages(*state, old(self).mode, crate::tools::opt_text(file_context)),
                        crate::subagents::profile_of(state.config, routed_pm.1).context_budget,
                    )
                },
                Err(m) => final(self).turns_left == old(self).turns_left && (if old(self).turns_left
                    == 0 {
                    m@ == turn_limit_text(state.config.max_agent_turns)
                } else {
                    !state.prompt_fits() && m@ == prompt_cut_message()
                }),
            },
    {
        if self.turns_left == 0 {
            let mut m = chars_of("agent reached max turn limit (");
            push_all(&mut m, &crate::text::usize_to_chars(state.config.max_agent_turns));
            push_str(&mut m, ") before completing");
            return Err(string_of(&m));
        }
        if !state.prompt_fits_exec() {
            return Err(owned("the model's prompt size limit falls inside a character"));
        }
        self.turns_left = self.turns_left - 1;
        let (provider, model) = routed_provider_model(state, self.user_input.as_str());
        let budget = match state.config.model_profiles.get(model.as_str()) {
            Some(p) => p.context_budget,
            None => None,
        };
        let mut messages = state.system_messages();
        let ghost m0 = messages_view(messages@);
        if self.mode == TurnMode::PlanOnly {
            messages.push(ModelMessage { role: MessageRole::System, content: owned(plan_mode_prompt()) });
        }
        let ghost m1 = messages_view(messages@);
        assert(m1 =~= m0 + (if self.mode == TurnMode::PlanOnly {
            seq![(MessageRole::System, plan_mode_prompt_text())]
        } else {
            seq![]
        }));
        let ghost note = crate::tools::opt_text(file_context);
        match file_context {
            Some(n) => {
                messages.push(ModelMessage { role: MessageRole::System, content: n });
            },
            None => {},
        }
        let ghost m2 = messages_view(messages@);
        assert(m2 =~= m1 + (match note {
            Some(n) => seq![(MessageRole::System, n)],
            None => seq![],
        }));
        let rest = copy_messages(&state.transcript);
        let ghost m3 = messages_view(rest@);
        let mut rest = rest;
        messages.append(&mut rest);
        assert(messages_view(messages@) =~= m2 + m3);
        assert(messages_view(messages@) =~= turn_messages(*state, self.mode, note));
        let kept = budget_messages(messages, budget);
        Ok(TurnRequest { provider, request: ModelRequest { model, messages: kept } })
    }
}

impl AgentTurn {
    /// Takes a model reply: records it, adds its visible text to the
    /// output, and either finishes the turn or asks for its calls (with
    /// vague paths fixed) to be run. A planning turn runs only the calls
    /// that read; the others get a blocked result, handed back first with
    /// the results.
    pub fn on_response(&mut self, state: &mut AgentState, text: &str) -> (r: (TurnStep, Vec<(String, String)>))
        ensures
            final(self).user_input == old(self).user_input,
            final(self).mode == old(self).mode,
            final(self).turns_left == old(self).turns_left,
            final(self).final_visible@ == add_visible(old(self).final_visible@, text@),
            messages_view(final(state).transcript@) == messages_view(old(state).transcript@).push(
                (MessageRole::Assistant, text@),
            ),
            final(state).config == old(state).config,
            final(state).context == old(state).context,
            final(state).session_id == old(state).session_id,
            final(state).selected_provider == old(state).selected_provider,
            final(state).selected_model == old(state).selected_model,
            final(state).effort_override == old(state).effort_override,
            final(state).work_mode == old(state).work_mode,
            final(state).pending_plan == old(state).pending_plan,
            events_view(r.1@) == response_events(old(self).user_input@, old(self).mode, text@),
            restore_fold(old(state).restore_view(), events_view(r.1@)) == final(state).restore_view(),
            ({
                let calls = normalized_calls(
                    old(self).user_input@,
                    turn_calls(old(self).user_input@, old(self).mode, text@),
                );
                match r.0 {
                    TurnStep::Finish(out) => calls.len() == 0 && out@ == final(self).final_visible@,
                    TurnStep::Execute(run) => calls.len() > 0 && if old(self).mode
                        == TurnMode::PlanOnly {
                        calls_view(run@) == allowed_calls(calls)
                            && crate::tools::results_view(final(self).blocked@) == blocked_results(
                            calls,
                        )
                    } else {
                        calls_view(run@) == calls && final(self).blocked@.len() == 0
                    },
                }
            }),
    {
        let ghost input = self.user_input@;
        let parsed = match crate::parser::parse_model_output(text) {
            Ok(p) => p,
            Err(_) => {
                return (TurnStep::Finish(String::new()), Vec::new());
            },
        };
        let ghost before = messages_view(state.transcript@);
        let ghost v0 = state.restore_view();
        state.transcript.push(ModelMessage { role: MessageRole::Assistant, content: owned(text) });
        assert(messages_view(state.transcript@) =~= before.push((MessageRole::Assistant, text@)));
        let visible = trim_chars(&chars_of(parsed.visible_text.as_str()));
        if visible.len() > 0 {
            let mut v = chars_of(self.final_visible.as_str());
            if v.len() > 0 {
                push_str(&mut v, "\n\n");
            }
            push_all(&mut v, &visible);
            self.final_visible = string_of(&v);
        }
        let mut events: Vec<(String, String)> = Vec::new();
        events.push((owned("assistant"), text_payload_exec(text)));
        proof {
            lemma_response_replay(v0, input, self.mode, text@);
        }
        let mut calls = parsed.calls;
        if calls.len() == 0 && self.mode == TurnMode::Implement {
            match infer_file_write(self.user_input.as_str(), text) {
                Some(c) => {
                    events.push((owned("inferred_tool_call"), call_payload_exec(&c)));
                    calls.push(c);
                },
                None => {},
            }
        }
        let ghost tc = turn_calls(input, self.mode, text@);
        assert(calls_view(calls@) =~= tc);
        let ghost ev0 = events_view(events@);
        assert(ev0 =~= seq![("assistant"@, text_payload(text@))] + (if crate::parser::parsed_calls(
            text@,
        ).len() == 0 && self.mode == TurnMode::Implement {
            match inferred_write(input, text@) {
                Some(c) => seq![("inferred_tool_call"@, call_payload(c))],
                None => seq![],
            }
        } else {
            seq![]
        }));
        if calls.len() == 0 {
            assert(events_view(events@) =~= response_events(input, self.mode, text@));
            return (TurnStep::Finish(self.final_visible.clone()), events);
        }
        let ghost nc = normalized_calls(input, tc);
        let mut run: Vec<ToolCall> = Vec::new();
        let mut blocked: Vec<ToolResult> = Vec::new();
        let mut i: usize = 0;
        let n = calls.len();
        let mut rest = calls;
        while rest.len() > 0
            invariant
                i + rest@.len() == tc.len(),
                tc.len() == n,
                calls_view(rest@) == tc.skip(i as int),
                tc == turn_calls(input, self.mode, text@),
                nc == normalized_calls(input, tc),
                input == self.user_input@,
                events_view(events@) == ev0 + nc.take(i as int).map_values(
                    |c: CallView| ("tool_call"@, call_payload(c)),
                ),
                self.mode == TurnMode::PlanOnly ==> calls_view(run@) == allowed_calls(nc.take(i as int))
                    && crate::tools::results_view(blocked@) == blocked_results(nc.take(i as int)),
                self.mode != TurnMode::PlanOnly ==> calls_view(run@) == nc.take(i as int)
                    && blocked@.len() == 0,
            decreases rest@.len(),
        {
            let ghost rv = rest@;
            let mut call = rest.remove(0);
            assert(call == rv[0]);
            assert(calls_view(rv)[0] == call_view(rv[0]));
            assert(tc.skip(i as int)[0] == tc[i as int]);
            assert(call_view(call) == tc[i as int]);
            assert(rest@ =~= rv.drop_first());
            assert(calls_view(rest@) =~= calls_view(rv).drop_first());
            assert(tc.skip(i as int).drop_first() =~= tc.skip(i + 1));
            assert(calls_view(rest@) =~= tc.skip(i + 1));
            normalize_local_tool_path(self.user_input.as_str(), &mut call);
            assert(call_view(call) == nc[i as int]);
            let ghost eb = events_view(events@);
            events.push((owned("tool_call"), call_payload_exec(&call)));
            assert(nc.take(i + 1) =~= nc.take(i as int).push(nc[i as int]));
            assert(events_view(events@) =~= eb.push(("tool_call"@, call_payload(nc[i as int]))));
            assert(nc.take(i + 1).map_values(|c: CallView| ("tool_call"@, call_payload(c))) =~= nc.take(
                i as int,
            ).map_values(|c: CallView| ("tool_call"@, call_payload(c))).push(
                ("tool_call"@, call_payload(nc[i as int])),
            ));
            assert(nc.take(i + 1).drop_last() =~= nc.take(i as int));
            if self.mode == TurnMode::PlanOnly {
                if is_read_only_call(&call) {
                    let ghost rb = calls_view(run@);
                    run.push(call);
                    assert(calls_view(run@) =~= rb.push(nc[i as int]));
                } else {
                    let ghost bb = crate::tools::results_view(blocked@);
                    blocked.push(blocked_plan_tool_result(&call));
                    assert(crate::tools::results_view(blocked@) =~= bb.push(
                        (nc[i as int].0, false, plan_block_text()),
                    ));
                }
            } else {
                let ghost rb = calls_view(run@);
                run.push(call);
                assert(calls_view(run@) =~= rb.push(nc[i as int]));
            }
            i = i + 1;
        }
        assert(nc.take(i as int) =~= nc);
        assert(events_view(events@) =~= response_events(input, self.mode, text@));
        self.blocked = blocked;
        (TurnStep::Execute(run), events)
    }
}

impl AgentTurn {
    /// Takes the results of the calls run: records them (after any
    /// blocked results), adds them to the transcript, and for a model that
    /// writes simple JSON actions finishes the turn after a successful
    /// write.
    pub fn on_results(&mut self, state: &mut AgentState, results: Vec<ToolResult>) -> (r: (
        Option<String>,
        Vec<(String, String)>,
    ))
        requires
            old(state).wf(),
        ensures
            final(self).user_input == old(self).user_input,
            final(self).mode == old(self).mode,
            final(self).turns_left == old(self).turns_left,
            final(self).final_visible == old(self).final_visible,
            final(self).blocked@.len() == 0,
            final(state).config == old(state).config,
            final(state).context == old(state).context,
            final(state).session_id == old(state).session_id,
            final(state).selected_provider == old(state).selected_provider,
            final(state).selected_model == old(state).selected_model,
            final(state).effort_override == old(state).effort_override,
            final(state).work_mode == old(state).work_mode,
            final(state).pending_plan == old(state).pending_plan,
            ({
                let all = crate::tools::results_view(old(self).blocked@) + crate::tools::results_view(
                    results@,
                );
                &&& events_view(r.1@) == all.map_values(
                    |x: (Seq<char>, bool, Seq<char>)| ("tool_result"@, result_payload(x)),
                )
                &&& restore_fold(old(state).restore_view(), events_view(r.1@)) == ({
                    let v = old(state).restore_view();
                    (v.0, v.1, v.2, v.3, v.4, v.5 + all.map_values(
                        |x: (Seq<char>, bool, Seq<char>)| (MessageRole::Tool, result_payload(x)),
                    ))
                })
                &&& messages_view(final(state).transcript@) == messages_view(
                    old(state).transcript@,
                ).push((MessageRole::Tool, "Tool results:\n"@ + crate::tools::results_json(all)))
                &&& crate::tools::opt_text(r.0) == (if crate::subagents::profile_of(
                    old(state).config,
                    old(state).selected_model@,
                ).tool_protocol == ToolProtocol::SimpleJson && first_write(all) is Some {
                    Some(write_finish(old(self).final_visible@, first_write(all)->0))
                } else {
                    None
                })
            }),
    {
        proof {
            lemma_restore_tool_results(
                old(state).restore_view(),
                crate::tools::results_view(old(self).blocked@) + crate::tools::results_view(results@),
            );
        }
        let mut all = Vec::new();
        std::mem::swap(&mut all, &mut self.blocked);
        let ghost b = crate::tools::results_view(all@);
        let mut results = results;
        let ghost rv = crate::tools::results_view(results@);
        all.append(&mut results);
        let ghost av = crate::tools::results_view(all@);
        assert(av =~= b + rv);
        let mut events: Vec<(String, String)> = Vec::new();
        let mut i: usize = 0;
        while i < all.len()
            invariant
                i <= all@.len(),
                av == crate::tools::results_view(all@),
                events_view(events@) == av.take(i as int).map_values(
                    |x: (Seq<char>, bool, Seq<char>)| ("tool_result"@, result_payload(x)),
                ),
            decreases all.len() - i,
        {
            let ghost eb = events_view(events@);
            events.push((owned("tool_result"), result_payload_exec(&all[i])));
            assert(av[i as int] == crate::tools::result_view(all@[i as int]));
            assert(events_view(events@) =~= eb.push(("tool_result"@, result_payload(av[i as int]))));
            assert(av.take(i + 1) =~= av.take(i as int).push(av[i as int]));
            assert(events_view(events@) =~= av.take(i + 1).map_values(
                |x: (Seq<char>, bool, Seq<char>)| ("tool_result"@, result_payload(x)),
            ));
            i = i + 1;
        }
        assert(av.take(all@.len() as int) =~= av);
        let content = crate::tools::render_tool_results(&all);
        let ghost before = messages_view(state.transcript@);
        state.transcript.push(ModelMessage { role: MessageRole::Tool, content });
        assert(messages_view(state.transcript@) =~= before.push(
            (MessageRole::Tool, "Tool results:\n"@ + crate::tools::results_json(av)),
        ));
        let profile = state.model_profile();
        if profile.tool_protocol != ToolProtocol::SimpleJson {
            return (None, events);
        }
        let mut k: usize = 0;
        let mut found: Option<usize> = None;
        assert(av.skip(0) =~= av);
        while k < all.len()
            invariant
                k <= all@.len(),
                av == crate::tools::results_view(all@),
                found is None ==> first_write(av) == first_write(av.skip(k as int)),
                found matches Some(j) ==> j < all@.len() && first_write(av) == Some(av[j as int].2),
            decreases all.len() - k,
        {
            assert(av.skip(k as int)[0] == av[k as int]);
            assert(av.skip(k as int).drop_first() =~= av.skip(k + 1));
            if found.is_none() && all[k].success && crate::text::same_text(all[k].tool.as_str(), "write_file") {
                found = Some(k);
            }
            k = k + 1;
        }
        match found {
            Some(j) => {
                let summary = all[j].content.as_str();
                let v = trim_chars(&chars_of(self.final_visible.as_str()));
                if v.len() == 0 {
                    return (Some(owned(summary)), events);
                }
                let mut out = v;
                push_str(&mut out, "\n\n");
                push_str(&mut out, summary);
                return (Some(string_of(&out)), events);
            },
            None => {},
        }
        (None, events)
    }
}

// ---------------------------------------------------------------------------
// Plan mode
// ---------------------------------------------------------------------------

pub open spec fn plan_waiting_text() -> Seq<char> {
    "A plan is already waiting for approval. Use `/approve` to implement it, `/reject` to discard it, or `/plan off` to leave plan mode."@
}

/// How a user's request is handled.
#[derive(Debug)]
pub enum UserTurn {
    /// Answer this without a turn.
    Reply(String),
    /// Run a turn in this mode.
    Run(TurnMode),
}

/// The payload recording a pending plan: `{"plan": ..., "task": ...}`.
pub open spec fn plan_payload(task: Seq<char>, plan: Seq<char>) -> Seq<char> {
    crate::json::object_text_of(crate::json::str_fields(seq![("plan"@, plan), ("task"@, task)]))
}

pub open spec fn plan_saved_text(plan: Seq<char>) -> Seq<char> {
    plan + "\n\nPlan saved. Use `/approve` to implement it or `/reject` to discard it."@
}

pub open spec fn approved_task_text(task: Seq<char>, plan: Seq<char>) -> Seq<char> {
    "Implement this approved plan for the original task.\n\nOriginal task:\n"@ + task
        + "\n\nApproved plan:\n"@ + plan
}

impl AgentState {
    /// In plan mode a request is planned, unless a plan already waits;
    /// otherwise it is carried out.
    pub fn user_turn(&self) -> (r: UserTurn)
        ensures
            match r {
                UserTurn::Reply(m) => self.work_mode == WorkMode::Plan && self.pending_plan is Some
                    && m@ == plan_waiting_text(),
                UserTurn::Run(mode) => (self.work_mode == WorkMode::Plan && self.pending_plan is None
                    && mode == TurnMode::PlanOnly) || (self.work_mode == WorkMode::Agent && mode
                    == TurnMode::Implement),
            },
    {
        if self.work_mode == WorkMode::Plan {
            if self.pending_plan.is_some() {
                return UserTurn::Reply(
                    owned(
                        "A plan is already waiting for approval. Use `/approve` to implement it, `/reject` to discard it, or `/plan off` to leave plan mode.",
                    ),
                );
            }
            UserTurn::Run(TurnMode::PlanOnly)
        } else {
            UserTurn::Run(TurnMode::Implement)
        }
    }

    /// Keeps a finished plan for approval; gives the reply and the event.
    pub fn save_plan(&mut self, task: &str, plan: &str) -> (r: (String, (String, String)))
        ensures
            final(self).pending_plan matches Some(p) && p.task@ == task@ && p.plan@ == plan@,
            r.0@ == plan_saved_text(plan@),
            r.1.0@ == "pending_plan"@,
            r.1.1@ == plan_payload(task@, plan@),
            final(self).config == old(self).config,
            final(self).context == old(self).context,
            final(self).session_id == old(self).session_id,
            final(self).selected_provider == old(self).selected_provider,
            final(self).selected_model == old(self).selected_model,
            final(self).effort_override == old(self).effort_override,
            final(self).work_mode == old(self).work_mode,
            final(self).transcript == old(self).transcript,
            task@.len() > 0 && plan@.len() > 0 ==> restore_step(
                old(self).restore_view(),
                r.1.0@,
                r.1.1@,
            ) == final(self).restore_view(),
    {
        self.pending_plan = Some(PendingPlan { task: owned(task), plan: owned(plan) });
        let entries = vec![(owned("plan"), owned(plan)), (owned("task"), owned(task))];
        proof {
            reveal_strlit("plan");
            reveal_strlit("task");
            assert(crate::json::pairs_view(entries@) =~= seq![("plan"@, plan@), ("task"@, task@)]);
            assert("plan"@[0] != "task"@[0]);
            assert(entries@[0].0@ == "plan"@ && entries@[1].0@ == "task"@);
        }
        let payload = crate::json::string_object(&entries);
        proof {
            assert(crate::json::string_member(payload@, entries@[0].0@) == Some(entries@[0].1@));
            assert(crate::json::string_member(payload@, entries@[1].0@) == Some(entries@[1].1@));
            reveal_event_kinds();
        }
        let mut out = chars_of(plan);
        push_str(&mut out, "\n\nPlan saved. Use `/approve` to implement it or `/reject` to discard it.");
        (string_of(&out), (owned("pending_plan"), payload))
    }
}

// ---------------------------------------------------------------------------
// Slash commands
// ---------------------------------------------------------------------------

/// What a slash command leaves for the interface to do.
#[derive(Debug)]
pub enum SlashAction {
    /// Leave the session.
    Exit,
    /// Show this text.
    Show(String),
    /// Show the command help.
    Help,
    /// Clear the screen.
    Clear,
    /// Show where the session is recorded.
    SessionPath,
    /// Carry out an implementing turn on the given request.
    RunTurn(String),
    /// Show the git status.
    GitStatus,
    /// Show the git diff.
    GitDiff,
    /// Review the current diff.
    Review,
    /// List the skills.
    Skills,
    /// Start a subagent of the given kind on the given request.
    RunSubagent(String, String),
    /// Serve this file for preview.
    Preview(String),
    /// Show the mascot.
    Mascot,
    /// The command failed with this error.
    Fail(String),
}

/// A slash command's outcome: what to do, the session events to record,
/// and a note for the session's memory.
#[derive(Debug)]
pub struct SlashOutcome {
    pub action: SlashAction,
    pub events: Vec<(String, String)>,
    pub memory: Option<(String, String)>,
}

pub open spec fn word_at(ws: Seq<Seq<char>>, i: int) -> Option<Seq<char>> {
    if 0 <= i < ws.len() {
        Some(ws[i])
    } else {
        None
    }
}

pub open spec fn plan_status_text(mode: WorkMode, pending: Option<PendingPlan>) -> Seq<char> {
    "plan mode: "@ + mode_text(mode) + match pending {
        Some(p) => "\npending plan for: "@ + p.task@,
        None => Seq::<char>::empty(),
    }
}

pub open spec fn unknown_plan_text(option: Seq<char>) -> Seq<char> {
    "unknown plan option `"@ + option + "`; use /plan on, /plan off, or /plan status"@
}

pub open spec fn model_text(provider: Seq<char>, model: Seq<char>) -> Seq<char> {
    "model: "@ + provider + " "@ + model
}

pub open spec fn summaries_text(reg: crate::providers::ProviderRegistry) -> Seq<char> {
    crate::text::join(
        reg.providers.entries@.map_values(
            |e: (String, crate::providers::ProviderEndpoint)|
                crate::providers::summary_text(
                    e.1.name@,
                    crate::providers::kind_text(e.1.kind),
                    e.1.base_url@,
                    crate::tools::opt_text(e.1.api_key_env),
                ),
        ),
        "\n"@,
    )
}

fn summaries_text_exec(reg: &crate::providers::ProviderRegistry) -> (r: String)
    ensures
        r@ == summaries_text(*reg),
{
    let sums = reg.summaries();
    let ghost target = reg.providers.entries@.map_values(
        |e: (String, crate::providers::ProviderEndpoint)|
            crate::providers::summary_text(
                e.1.name@,
                crate::providers::kind_text(e.1.kind),
                e.1.base_url@,
                crate::tools::opt_text(e.1.api_key_env),
            ),
    );
    let mut lines: Vec<Vec<char>> = Vec::new();
    let mut i: usize = 0;
    while i < sums.len()
        invariant
            i <= sums@.len(),
            sums@.len() == reg.providers.entries@.len(),
            forall|j: int|
                0 <= j < sums@.len() ==> (#[trigger] sums@[j]).name@ == reg.providers.entries@[j].1.name@
                    && sums@[j].kind@ == crate::providers::kind_text(reg.providers.entries@[j].1.kind)
                    && sums@[j].base_url@ == reg.providers.entries@[j].1.base_url@
                    && sums@[j].api_key_env == reg.providers.entries@[j].1.api_key_env,
            crate::text::views(lines@) == target.take(i as int),
            target == reg.providers.entries@.map_values(
                |e: (String, crate::providers::ProviderEndpoint)|
                    crate::providers::summary_text(
                        e.1.name@,
                        crate::providers::kind_text(e.1.kind),
                        e.1.base_url@,
                        crate::tools::opt_text(e.1.api_key_env),
                    ),
            ),
        decreases sums.len() - i,
    {
        let line = sums[i].to_text();
        let ghost before = crate::text::views(lines@);
        lines.push(chars_of(line.as_str()));
        assert(crate::text::views(lines@) =~= before.push(target[i as int]));
        assert(target.take(i + 1) =~= target.take(i as int).push(target[i as int]));
        i = i + 1;
    }
    assert(target.take(sums@.len() as int) =~= target);
    string_of(&crate::text::join_chars(&lines, "\n"))
}

/// `new` is the transcript `old` compacts to, with `summary` its summary
/// (as [`compact_transcript`] states).
pub open spec fn compacted(
    old_t: Seq<(MessageRole, Seq<char>)>,
    new_t: Seq<(MessageRole, Seq<char>)>,
    summary: Seq<char>,
) -> bool {
    &&& old_t.len() <= 8 ==> summary == "context already compact"@ && new_t == old_t
    &&& old_t.len() > 8 ==> ({
        let n = (old_t.len() - 8) as nat;
        let g = gather(old_t.take(n as int));
        exists|files: Seq<Seq<char>>|
            sorted_set_of(files, g.3) && summary == compact_summary_text(n, g.0, g.1, g.2, files)
                && new_t == seq![(MessageRole::System, "Session summary so far:\n"@ + summary)]
                + old_t.skip(n as int)
    })
}

pub open spec fn mascot_note_text() -> Seq<char> {
    "The animated crab is shown in the full-screen header and updates while the input box is waiting for keys."@
}

/// Where the mascot is shown, as the full-screen interface says.
pub fn mascot_note() -> (r: &'static str)
    ensures
        r@ == mascot_note_text(),
{
    "The animated crab is shown in the full-screen header and updates while the input box is waiting for keys."
}

/// The outcome a slash command line has in the full-screen interface (see
/// [`AgentState::handle_fullscreen_slash_command`]).
pub open spec fn fullscreen_slash_ok(
    old_s: AgentState,
    new_s: AgentState,
    providers: crate::providers::ProviderRegistry,
    input: Seq<char>,
    r: SlashOutcome,
) -> bool {
    let cmd = command_word(input);
    if cmd == "/help"@ {
        r.action matches SlashAction::Show(m) && m@ == fullscreen_help_text() && new_s == old_s && no_events(r)
    } else if cmd == "/mascot"@ {
        r.action matches SlashAction::Show(m) && m@ == mascot_note_text() && new_s == old_s && no_events(r)
    } else if cmd == "/clear"@ {
        r.action matches SlashAction::Show(m) && m@ == "unknown command `/clear`"@ && new_s == old_s
            && no_events(r)
    } else {
        slash_outcome_ok(old_s, new_s, providers, input, r)
    }
}

/// Where a line typed at the prompt goes.
#[derive(Debug, PartialEq, Eq, Structural)]
pub enum InputRoute {
    /// Nothing to do.
    Ignore,
    /// Clear the visible transcript.
    ClearScreen,
    /// A slash command.
    Command,
    /// A request for the agent.
    Request,
}

/// The line-mode prompt: the line is trimmed; an empty line is ignored, one
/// that starts with `/` is a command, any other a request.
pub open spec fn line_route(trimmed: Seq<char>) -> InputRoute {
    if trimmed.len() == 0 {
        InputRoute::Ignore
    } else if trimmed[0] == '/' {
        InputRoute::Command
    } else {
        InputRoute::Request
    }
}

pub fn route_line(line: &str) -> (r: (InputRoute, String))
    ensures
        r.1@ == crate::text::trim(line@),
        r.0 == line_route(crate::text::trim(line@)),
{
    let t = crate::text::trim_str(line);
    let route = if t.len() == 0 {
        InputRoute::Ignore
    } else if t[0] == '/' {
        InputRoute::Command
    } else {
        InputRoute::Request
    };
    (route, string_of(&t))
}

/// The full-screen prompt: exactly `/clear` clears the transcript; a line
/// that starts with `/` is a command; any other a request.
pub open spec fn fullscreen_route(input: Seq<char>) -> InputRoute {
    if input == "/clear"@ {
        InputRoute::ClearScreen
    } else if input.len() > 0 && input[0] == '/' {
        InputRoute::Command
    } else {
        InputRoute::Request
    }
}

pub fn route_fullscreen_input(input: &str) -> (r: InputRoute)
    ensures
        r == fullscreen_route(input@),
{
    let v = chars_of(input);
    if crate::text::eq_str(&v, "/clear") {
        InputRoute::ClearScreen
    } else if v.len() > 0 && v[0] == '/' {
        InputRoute::Command
    } else {
        InputRoute::Request
    }
}

/// What the full-screen transcript shows for a turn's answer: the answer,
/// or `fallback` when it is blank.
pub fn reply_or(output: &str, fallback: &str) -> (r: String)
    ensures
        r@ == if crate::text::trim(output@).len() == 0 {
            fallback@
        } else {
            output@
        },
{
    if crate::text::trim_str(output).len() == 0 {
        owned(fallback)
    } else {
        owned(output)
    }
}

/// The first word of a command line, or nothing.
pub open spec fn command_word(input: Seq<char>) -> Seq<char> {
    let ws = crate::text::words(input);
    if ws.len() > 0 {
        ws[0]
    } else {
        Seq::<char>::empty()
    }
}

pub open spec fn no_events(r: SlashOutcome) -> bool {
    r.events@.len() == 0 && r.memory is None
}

/// The outcome a slash command line has (see [`AgentState::handle_slash_command`]).
pub open spec fn slash_outcome_ok(
    old_s: AgentState,
    new_s: AgentState,
    providers: crate::providers::ProviderRegistry,
    input: Seq<char>,
    r: SlashOutcome,
) -> bool {
    let ws = crate::text::words(input);
    let cmd = command_word(input);
    let a1 = word_at(ws, 1);
    let a2 = word_at(ws, 2);
    let unchanged = new_s == old_s;
    if cmd == "/exit"@ || cmd == "/quit"@ {
        r.action is Exit && unchanged && no_events(r)
    } else if cmd == "/help"@ {
        r.action is Help && unchanged && no_events(r)
    } else if cmd == "/clear"@ {
        r.action is Clear && unchanged && no_events(r)
    } else if cmd == "/context"@ {
        r.action matches SlashAction::Show(m) && m@ == crate::context::summary_text(
            old_s.context.instruction_files@,
        ) + "\n"@ + instructions_text(old_s.context.instruction_files@) && unchanged && no_events(r)
    } else if cmd == "/providers"@ {
        r.action matches SlashAction::Show(m) && m@ == summaries_text(providers) && unchanged
            && no_events(r)
    } else if cmd == "/effort"@ {
        match a1 {
            Some(v) => match crate::config::parse_effort(v) {
                Some(e) => r.action matches SlashAction::Show(m) && m@ == "effort: "@ + effort_text(e)
                    && new_s == (AgentState { effort_override: Some(e), ..old_s })
                    && events_view(r.events@) == seq![("effort"@, text_payload(effort_text(e)))]
                    && r.memory is None,
                None => r.action matches SlashAction::Fail(m) && m@
                    == crate::config::unknown_effort_message(v) && unchanged && no_events(r),
            },
            None => r.action matches SlashAction::Show(m) && m@ == "effort: "@ + effort_text(
                old_s.spec_current_effort(),
            ) && unchanged && no_events(r),
        }
    } else if cmd == "/model"@ {
        match (a1, a2) {
            (Some(p), Some(mo)) => if providers.providers.lookup(p) is Some {
                r.action matches SlashAction::Show(m) && m@ == model_text(p, mo)
                    && new_s.selected_provider@ == p && new_s.selected_model@ == mo && new_s == (
                AgentState {
                    selected_provider: new_s.selected_provider,
                    selected_model: new_s.selected_model,
                    ..old_s
                }) && no_events(r)
            } else {
                r.action matches SlashAction::Fail(m) && m@
                    == crate::providers::unknown_provider_message(p) && unchanged && no_events(r)
            },
            _ => r.action matches SlashAction::Show(m) && m@ == model_text(
                old_s.selected_provider@,
                old_s.selected_model@,
            ) && unchanged && no_events(r),
        }
    } else if cmd == "/permissions"@ {
        r.action matches SlashAction::Show(m) && m@ == "permissions: "@
            + old_s.config.permission_profile@ && unchanged && no_events(r)
    } else if cmd == "/session"@ {
        r.action is SessionPath && unchanged && no_events(r)
    } else if cmd == "/compact"@ {
        r.action matches SlashAction::Show(m) && exists|summary: Seq<char>|
            compacted(messages_view(old_s.transcript@), messages_view(new_s.transcript@), summary)
                && m@ == "compacted session context\n"@ + summary && events_view(r.events@) == seq![
                ("compact_summary"@, text_payload(summary)),
            ] && (r.memory matches Some(mem) && mem.0@ == "compact_summary"@ && mem.1@ == summary)
                && new_s == (AgentState { transcript: new_s.transcript, ..old_s })
    } else if cmd == "/plan"@ {
        let v = str_or(a1, "on"@);
        if v == "on"@ {
            r.action matches SlashAction::Show(m) && m@ == "plan mode: on"@ && new_s == (AgentState {
                work_mode: WorkMode::Plan,
                ..old_s
            }) && events_view(r.events@) == seq![("work_mode"@, text_payload("plan"@))] && r.memory is None
        } else if v == "off"@ {
            r.action matches SlashAction::Show(m) && m@ == "plan mode: off"@ && new_s == (
            AgentState { work_mode: WorkMode::Agent, pending_plan: None, ..old_s })
                && events_view(r.events@) == seq![
                ("work_mode"@, text_payload("agent"@)),
                ("plan_resolved"@, text_payload("off"@)),
            ] && r.memory is None
        } else if v == "status"@ {
            r.action matches SlashAction::Show(m) && m@ == plan_status_text(
                old_s.work_mode,
                old_s.pending_plan,
            ) && unchanged && no_events(r)
        } else {
            r.action matches SlashAction::Show(m) && m@ == unknown_plan_text(v) && unchanged
                && no_events(r)
        }
    } else if cmd == "/approve"@ {
        match old_s.pending_plan {
            Some(p) => r.action matches SlashAction::RunTurn(t) && t@ == approved_task_text(
                p.task@,
                p.plan@,
            ) && new_s == (AgentState { work_mode: WorkMode::Agent, pending_plan: None, ..old_s })
                && events_view(r.events@) == seq![
                ("plan_resolved"@, text_payload("approved"@)),
                ("work_mode"@, text_payload("agent"@)),
            ] && r.memory is None,
            None => r.action matches SlashAction::Show(m) && m@ == "no pending plan"@ && unchanged
                && no_events(r),
        }
    } else if cmd == "/reject"@ {
        match old_s.pending_plan {
            Some(p) => r.action matches SlashAction::Show(m) && m@ == "pending plan discarded"@
                && new_s == (AgentState { pending_plan: None, ..old_s }) && events_view(r.events@)
                == seq![("plan_resolved"@, text_payload("rejected"@))] && r.memory is None,
            None => r.action matches SlashAction::Show(m) && m@ == "no pending plan"@ && unchanged
                && no_events(r),
        }
    } else if cmd == "/status"@ {
        r.action is GitStatus && unchanged && no_events(r)
    } else if cmd == "/diff"@ {
        r.action is GitDiff && unchanged && no_events(r)
    } else if cmd == "/review"@ {
        r.action is Review && unchanged && no_events(r)
    } else if cmd == "/skills"@ {
        r.action is Skills && unchanged && no_events(r)
    } else if cmd == "/subagent"@ {
        r.action matches SlashAction::RunSubagent(k, t) && k@ == str_or(a1, "plan"@) && t@ == (
        if ws.len() > 2 {
            crate::text::join(ws.skip(2), " "@)
        } else {
            Seq::<char>::empty()
        }) && unchanged && no_events(r)
    } else if cmd == "/preview"@ {
        r.action matches SlashAction::Preview(p) && p@ == str_or(a1, "index.html"@) && unchanged
            && no_events(r)
    } else if cmd == "/mascot"@ {
        r.action is Mascot && unchanged && no_events(r)
    } else {
        r.action matches SlashAction::Show(m) && m@ == "unknown command `"@ + cmd + "`"@ && unchanged
            && no_events(r)
    }
}

fn show(text: Vec<char>) -> (r: SlashOutcome)
    ensures
        r.action matches SlashAction::Show(m) && m@ == text@,
        no_events(r),
{
    SlashOutcome { action: SlashAction::Show(string_of(&text)), events: Vec::new(), memory: None }
}

fn quiet(action: SlashAction) -> (r: SlashOutcome)
    ensures
        r.action == action,
        no_events(r),
{
    SlashOutcome { action, events: Vec::new(), memory: None }
}

fn event(kind: &str, text: &str) -> (r: (String, String))
    ensures
        r.0@ == kind@,
        r.1@ == text_payload(text@),
        crate::json::string_member(r.1@, "text"@) == Some(text@),
{
    (owned(kind), text_payload_exec(text))
}

impl AgentState {
    fn effort_command(&mut self, value: Option<&Vec<char>>) -> (r: SlashOutcome)
        requires
            old(self).wf(),
        ensures
            match value {
                Some(v) => match crate::config::parse_effort(v@) {
                    Some(e) => (r.action matches SlashAction::Show(m) && m@ == "effort: "@
                        + effort_text(e)) && *final(self) == (AgentState {
                        effort_override: Some(e),
                        ..*old(self)
                    }) && events_view(r.events@) == seq![("effort"@, text_payload(effort_text(e)))]
                        && r.memory is None,
                    None => (r.action matches SlashAction::Fail(m) && m@
                        == crate::config::unknown_effort_message(v@)) && *final(self) == *old(self)
                        && no_events(r),
                },
                None => (r.action matches SlashAction::Show(m) && m@ == "effort: "@ + effort_text(
                    old(self).spec_current_effort(),
                )) && *final(self) == *old(self) && no_events(r),
            },
            replays(*old(self), *final(self), r),
    {
        let ghost v0 = self.restore_view();
        match value {
            Some(v) => {
                let vs = string_of(v);
                match EffortLevel::from_str(vs.as_str()) {
                    Ok(e) => {
                        self.effort_override = Some(e);
                        let mut m = chars_of("effort: ");
                        push_str(&mut m, e.as_str());
                        let mut events: Vec<(String, String)> = Vec::new();
                        let ev = event("effort", e.as_str());
                        proof {
                            lemma_restore_one(v0, (ev.0@, ev.1@));
                            reveal_event_kinds();
                            lemma_effort_round_trip(e);
                        }
                        events.push(ev);
                        assert(events_view(events@) =~= seq![("effort"@, text_payload(effort_text(e)))]);
                        SlashOutcome { action: SlashAction::Show(string_of(&m)), events, memory: None }
                    },
                    Err(msg) => quiet(SlashAction::Fail(msg)),
                }
            },
            None => {
                let mut m = chars_of("effort: ");
                push_str(&mut m, self.current_effort().as_str());
                show(m)
            },
        }
    }

    fn plan_command(&mut self, value: &Vec<char>) -> (r: SlashOutcome)
        ensures
            ({
                let v = value@;
                if v == "on"@ {
                    (r.action matches SlashAction::Show(m) && m@ == "plan mode: on"@) && *final(self)
                        == (AgentState { work_mode: WorkMode::Plan, ..*old(self) }) && events_view(
                        r.events@,
                    ) == seq![("work_mode"@, text_payload("plan"@))] && r.memory is None
                } else if v == "off"@ {
                    (r.action matches SlashAction::Show(m) && m@ == "plan mode: off"@) && *final(self)
                        == (AgentState {
                        work_mode: WorkMode::Agent,
                        pending_plan: None,
                        ..*old(self)
                    }) && events_view(r.events@) == seq![
                        ("work_mode"@, text_payload("agent"@)),
                        ("plan_resolved"@, text_payload("off"@)),
                    ] && r.memory is None
                } else if v == "status"@ {
                    (r.action matches SlashAction::Show(m) && m@ == plan_status_text(
                        old(self).work_mode,
                        old(self).pending_plan,
                    )) && *final(self) == *old(self) && no_events(r)
                } else {
                    (r.action matches SlashAction::Show(m) && m@ == unknown_plan_text(v)) && *final(self) == *old(self) && no_events(r)
                }
            }),
            replays(*old(self), *final(self), r),
    {
        let ghost v0 = self.restore_view();
        if crate::text::eq_str(value, "on") {
            self.work_mode = WorkMode::Plan;
            let mut events: Vec<(String, String)> = Vec::new();
            let ev = event("work_mode", "plan");
            proof {
                lemma_restore_one(v0, (ev.0@, ev.1@));
                reveal_event_kinds();
                lemma_mode_round_trip(WorkMode::Plan);
            }
            events.push(ev);
            assert(events_view(events@) =~= seq![("work_mode"@, text_payload("plan"@))]);
            SlashOutcome { action: SlashAction::Show(owned("plan mode: on")), events, memory: None }
        } else if crate::text::eq_str(value, "off") {
            self.work_mode = WorkMode::Agent;
            self.pending_plan = None;
            let mut events: Vec<(String, String)> = Vec::new();
            let e1 = event("work_mode", "agent");
            let e2 = event("plan_resolved", "off");
            proof {
                lemma_restore_two(v0, (e1.0@, e1.1@), (e2.0@, e2.1@));
                reveal_event_kinds();
                lemma_mode_round_trip(WorkMode::Agent);
            }
            events.push(e1);
            events.push(e2);
            assert(events_view(events@) =~= seq![
                ("work_mode"@, text_payload("agent"@)),
                ("plan_resolved"@, text_payload("off"@)),
            ]);
            SlashOutcome { action: SlashAction::Show(owned("plan mode: off")), events, memory: None }
        } else if crate::text::eq_str(value, "status") {
            let mut m = chars_of("plan mode: ");
            push_str(&mut m, self.work_mode.as_str());
            match &self.pending_plan {
                Some(p) => {
                    push_str(&mut m, "\npending plan for: ");
                    push_str(&mut m, p.task.as_str());
                },
                None => {},
            }
            assert(m@ =~= plan_status_text(self.work_mode, self.pending_plan));
            show(m)
        } else {
            let mut m = chars_of("unknown plan option `");
            push_all(&mut m, value);
            push_str(&mut m, "`; use /plan on, /plan off, or /plan status");
            show(m)
        }
    }

    fn approve_command(&mut self) -> (r: SlashOutcome)
        ensures
            match old(self).pending_plan {
                Some(p) => (r.action matches SlashAction::RunTurn(t) && t@ == approved_task_text(
                    p.task@,
                    p.plan@,
                )) && *final(self) == (AgentState {
                    work_mode: WorkMode::Agent,
                    pending_plan: None,
                    ..*old(self)
                }) && events_view(r.events@) == seq![
                    ("plan_resolved"@, text_payload("approved"@)),
                    ("work_mode"@, text_payload("agent"@)),
                ] && r.memory is None,
                None => (r.action matches SlashAction::Show(m) && m@ == "no pending plan"@) && *final(self) == *old(self) && no_events(r),
            },
            replays(*old(self), *final(self), r),
    {
        let ghost v0 = self.restore_view();
        let plan = match self.pending_plan.take() {
            Some(p) => p,
            None => return show(chars_of("no pending plan")),
        };
        self.work_mode = WorkMode::Agent;
        let mut events: Vec<(String, String)> = Vec::new();
        let e1 = event("plan_resolved", "approved");
        let e2 = event("work_mode", "agent");
        proof {
            lemma_restore_two(v0, (e1.0@, e1.1@), (e2.0@, e2.1@));
            reveal_event_kinds();
            lemma_mode_round_trip(WorkMode::Agent);
        }
        events.push(e1);
        events.push(e2);
        assert(events_view(events@) =~= seq![
            ("plan_resolved"@, text_payload("approved"@)),
            ("work_mode"@, text_payload("agent"@)),
        ]);
        let mut t = chars_of("Implement this approved plan for the original task.\n\nOriginal task:\n");
        push_str(&mut t, plan.task.as_str());
        push_str(&mut t, "\n\nApproved plan:\n");
        push_str(&mut t, plan.plan.as_str());
        SlashOutcome { action: SlashAction::RunTurn(string_of(&t)), events, memory: None }
    }

    fn reject_command(&mut self) -> (r: SlashOutcome)
        ensures
            match old(self).pending_plan {
                Some(p) => (r.action matches SlashAction::Show(m) && m@ == "pending plan discarded"@)
                    && *final(self) == (AgentState { pending_plan: None, ..*old(self) })
                    && events_view(r.events@) == seq![("plan_resolved"@, text_payload("rejected"@))]
                    && r.memory is None,
                None => (r.action matches SlashAction::Show(m) && m@ == "no pending plan"@) && *final(self) == *old(self) && no_events(r),
            },
            replays(*old(self), *final(self), r),
    {
        let ghost v0 = self.restore_view();
        if self.pending_plan.take().is_some() {
            let mut events: Vec<(String, String)> = Vec::new();
            let ev = event("plan_resolved", "rejected");
            proof {
                lemma_restore_one(v0, (ev.0@, ev.1@));
                reveal_event_kinds();
            }
            events.push(ev);
            assert(events_view(events@) =~= seq![("plan_resolved"@, text_payload("rejected"@))]);
            SlashOutcome { action: SlashAction::Show(owned("pending plan discarded")), events, memory: None }
        } else {
            show(chars_of("no pending plan"))
        }
    }

    fn compact_command(&mut self) -> (r: SlashOutcome)
        ensures
            r.action matches SlashAction::Show(m) && exists|summary: Seq<char>|
                compacted(
                    messages_view(old(self).transcript@),
                    messages_view(final(self).transcript@),
                    summary,
                ) && m@ == "compacted session context\n"@ + summary && events_view(r.events@)
                    == seq![("compact_summary"@, text_payload(summary))] && (r.memory matches Some(mem)
                    && mem.0@ == "compact_summary"@ && mem.1@ == summary) && *final(self) == (
                AgentState { transcript: final(self).transcript, ..*old(self) }),
            old(self).transcript@.len() > 8 ==> restore_fold(old(self).restore_view(), events_view(r.events@))
                == ({
                let v = old(self).restore_view();
                (v.0, v.1, v.2, v.3, v.4, v.5.push(messages_view(final(self).transcript@)[0]))
            }),
    {
        let ghost v0 = self.restore_view();
        let summary = compact_transcript(&mut self.transcript);
        let mut events: Vec<(String, String)> = Vec::new();
        let ev = event("compact_summary", summary.as_str());
        proof {
            lemma_restore_one(v0, (ev.0@, ev.1@));
            reveal_event_kinds();
        }
        events.push(ev);
        assert(events_view(events@) =~= seq![("compact_summary"@, text_payload(summary@))]);
        let mut m = chars_of("compacted session context\n");
        push_str(&mut m, summary.as_str());
        let ghost sv = summary@;
        let r = SlashOutcome {
            action: SlashAction::Show(string_of(&m)),
            events,
            memory: Some((owned("compact_summary"), summary)),
        };
        assert(compacted(messages_view(old(self).transcript@), messages_view(self.transcript@), sv));
        r
    }
}

impl AgentState {
    /// Carries out a slash command line: changes the state as the command
    /// says, and returns what is left for the interface to do, with the
    /// session events to record.
    #[verifier::rlimit(60)]
    pub fn handle_slash_command(
        &mut self,
        providers: &crate::providers::ProviderRegistry,
        input: &str,
    ) -> (r: SlashOutcome)
        requires
            old(self).wf(),
            providers.wf(),
        ensures
            final(self).wf(),
            slash_outcome_ok(*old(self), *final(self), *providers, input@, r),
            command_word(input@) != "/model"@ && command_word(input@) != "/compact"@ ==> replays(
                *old(self),
                *final(self),
                r,
            ),
            command_word(input@) == "/compact"@ && old(self).transcript@.len() > 8 ==> restore_fold(
                old(self).restore_view(),
                events_view(r.events@),
            ) == ({
                let v = old(self).restore_view();
                (v.0, v.1, v.2, v.3, v.4, v.5.push(messages_view(final(self).transcript@)[0]))
            }),
    {
        proof {
            lemma_compact_is_its_own_command();
        }
        let ws = crate::text::words_of(&chars_of(input));
        let ghost wv = crate::text::views(ws@);
        let empty: Vec<char> = Vec::new();
        let cmd: &Vec<char> = if ws.len() > 0 {
            &ws[0]
        } else {
            &empty
        };
        assert(cmd@ == command_word(input@));
        let a1: Option<&Vec<char>> = if ws.len() > 1 {
            Some(&ws[1])
        } else {
            None
        };
        let a2: Option<&Vec<char>> = if ws.len() > 2 {
            Some(&ws[2])
        } else {
            None
        };
        assert(match a1 {
            Some(v) => word_at(wv, 1) == Some(v@),
            None => word_at(wv, 1) is None,
        });
        assert(match a2 {
            Some(v) => word_at(wv, 2) == Some(v@),
            None => word_at(wv, 2) is None,
        });
        let is = |c: &Vec<char>, w: &str| -> (b: bool)
            ensures
                b == (c@ == w@),
            { crate::text::eq_str(c, w) };
        if is(cmd, "/exit") || is(cmd, "/quit") {
            return quiet(SlashAction::Exit);
        }
        if is(cmd, "/help") {
            return quiet(SlashAction::Help);
        }
        if is(cmd, "/clear") {
            return quiet(SlashAction::Clear);
        }
        if is(cmd, "/context") {
            let mut m = chars_of(self.context.summary().as_str());
            push_str(&mut m, "\n");
            push_str(&mut m, self.context.render_for_prompt().as_str());
            return show(m);
        }
        if is(cmd, "/providers") {
            return show(chars_of(summaries_text_exec(providers).as_str()));
        }
        if is(cmd, "/effort") {
            return self.effort_command(a1);
        }
        if is(cmd, "/model") {
            match (a1, a2) {
                (Some(p), Some(mo)) => {
                    let ps = string_of(p);
                    match providers.get(ps.as_str()) {
                        Ok(_) => {},
                        Err(msg) => return quiet(SlashAction::Fail(msg)),
                    }
                    self.selected_provider = ps;
                    self.selected_model = string_of(mo);
                    let mut m = chars_of("model: ");
                    push_all(&mut m, p);
                    push_str(&mut m, " ");
                    push_all(&mut m, mo);
                    return show(m);
                },
                _ => {
                    let mut m = chars_of("model: ");
                    push_str(&mut m, self.selected_provider.as_str());
                    push_str(&mut m, " ");
                    push_str(&mut m, self.selected_model.as_str());
                    return show(m);
                },
            }
        }
        if is(cmd, "/permissions") {
            let mut m = chars_of("permissions: ");
            push_str(&mut m, self.config.permission_profile.as_str());
            return show(m);
        }
        if is(cmd, "/session") {
            return quiet(SlashAction::SessionPath);
        }
        if is(cmd, "/compact") {
            return self.compact_command();
        }
        if is(cmd, "/plan") {
            let on = chars_of("on");
            let v: &Vec<char> = match a1 {
                Some(v) => v,
                None => &on,
            };
            return self.plan_command(v);
        }
        if is(cmd, "/approve") {
            return self.approve_command();
        }
        if is(cmd, "/reject") {
            return self.reject_command();
        }
        if is(cmd, "/status") {
            return quiet(SlashAction::GitStatus);
        }
        if is(cmd, "/diff") {
            return quiet(SlashAction::GitDiff);
        }
        if is(cmd, "/review") {
            return quiet(SlashAction::Review);
        }
        if is(cmd, "/skills") {
            return quiet(SlashAction::Skills);
        }
        if is(cmd, "/subagent") {
            let kind = match a1 {
                Some(k) => string_of(k),
                None => owned("plan"),
            };
            let mut task: Vec<char> = Vec::new();
            if ws.len() > 2 {
                let mut rest: Vec<Vec<char>> = Vec::new();
                let mut i: usize = 2;
                while i < ws.len()
                    invariant
                        2 <= i <= ws@.len(),
                        wv == crate::text::views(ws@),
                        crate::text::views(rest@) == wv.subrange(2, i as int),
                    decreases ws.len() - i,
                {
                    let ghost before = crate::text::views(rest@);
                    let piece = slice_chars(&ws[i], 0, ws[i].len());
                    assert(piece@ =~= wv[i as int]);
                    rest.push(piece);
                    assert(crate::text::views(rest@) =~= before.push(wv[i as int]));
                    assert(wv.subrange(2, i + 1) =~= wv.subrange(2, i as int).push(wv[i as int]));
                    i = i + 1;
                }
                assert(wv.subrange(2, ws@.len() as int) =~= wv.skip(2));
                task = crate::text::join_chars(&rest, " ");
            }
            return quiet(SlashAction::RunSubagent(kind, string_of(&task)));
        }
        if is(cmd, "/preview") {
            let path = match a1 {
                Some(p) => string_of(p),
                None => owned("index.html"),
            };
            return quiet(SlashAction::Preview(path));
        }
        if is(cmd, "/mascot") {
            return quiet(SlashAction::Mascot);
        }
        let mut m = chars_of("unknown command `");
        push_all(&mut m, cmd);
        push_str(&mut m, "`");
        show(m)
    }
}

/// The `subagent_result` event payload: the report's fields, by key.
pub open spec fn report_payload(kind: Seq<char>, task: Seq<char>, report: Seq<char>, calls: usize) -> Seq<char> {
    crate::json::object_text_of(
        seq![
            ("kind"@, JsonFieldView::Str(kind)),
            ("report"@, JsonFieldView::Str(report)),
            ("task"@, JsonFieldView::Str(task)),
            ("tool_calls"@, JsonFieldView::Count(calls as u64)),
        ],
    )
}

/// How a finished subagent is shown.
pub open spec fn subagent_shown(kind: Seq<char>, calls: usize, report: Seq<char>) -> Seq<char> {
    "subagent: "@ + kind + "  tool calls: "@ + crate::text::decimal(calls as nat) + "\n"@ + report
}

pub fn subagent_summary(report: &crate::subagents::SubagentReport) -> (r: String)
    ensures
        r@ == subagent_shown(report.kind@, report.tool_calls, report.report@),
{
    let mut out = chars_of("subagent: ");
    push_str(&mut out, report.kind.as_str());
    push_str(&mut out, "  tool calls: ");
    push_all(&mut out, &crate::text::usize_to_chars(report.tool_calls));
    push_str(&mut out, "\n");
    push_str(&mut out, report.report.as_str());
    string_of(&out)
}

impl AgentState {
    /// A slash command in the full-screen interface: `/help` shows the
    /// full-screen command list, `/mascot` a note on where the mascot is
    /// shown, `/clear` (reaching here only with more on its line) is no
    /// command; every other line is handled as by
    /// [`AgentState::handle_slash_command`].
    pub fn handle_fullscreen_slash_command(
        &mut self,
        providers: &crate::providers::ProviderRegistry,
        input: &str,
    ) -> (r: SlashOutcome)
        requires
            old(self).wf(),
            providers.wf(),
        ensures
            final(self).wf(),
            fullscreen_slash_ok(*old(self), *final(self), *providers, input@, r),
            command_word(input@) != "/model"@ && command_word(input@) != "/compact"@ ==> replays(
                *old(self),
                *final(self),
                r,
            ),
            command_word(input@) == "/compact"@ && old(self).transcript@.len() > 8 ==> restore_fold(
                old(self).restore_view(),
                events_view(r.events@),
            ) == ({
                let v = old(self).restore_view();
                (v.0, v.1, v.2, v.3, v.4, v.5.push(messages_view(final(self).transcript@)[0]))
            }),
    {
        proof {
            lemma_compact_is_its_own_command();
        }
        let ws = crate::text::words_of(&chars_of(input));
        let cmd: Vec<char> = if ws.len() > 0 {
            crate::text::slice_chars(&ws[0], 0, ws[0].len())
        } else {
            Vec::new()
        };
        assert(cmd@ =~= command_word(input@));
        if crate::text::eq_str(&cmd, "/help") {
            return show(chars_of(fullscreen_help()));
        }
        if crate::text::eq_str(&cmd, "/mascot") {
            return show(chars_of(mascot_note()));
        }
        if crate::text::eq_str(&cmd, "/clear") {
            return show(chars_of("unknown command `/clear`"));
        }
        self.handle_slash_command(providers, input)
    }

    /// Keeps a subagent's report: as a note in the transcript, as a
    /// session event and in the session's memory.
    pub fn record_subagent(&mut self, report: &crate::subagents::SubagentReport) -> (r: (
        (String, String),
        (String, String),
    ))
        ensures
            r.0.0@ == "subagent_result"@,
            r.0.1@ == report_payload(report.kind@, report.task@, report.report@, report.tool_calls),
            r.1.0@ == "subagent_result"@,
            r.1.1@ == report.report@,
            messages_view(final(self).transcript@) == messages_view(old(self).transcript@).push(
                (MessageRole::System, subagent_note(report.kind@, report.task@, report.report@)),
            ),
            *final(self) == (AgentState { transcript: final(self).transcript, ..*old(self) }),
            restore_step(old(self).restore_view(), r.0.0@, r.0.1@) == final(self).restore_view(),
    {
        let ghost v0 = self.restore_view();
        let fields = vec![
            (owned("kind"), JsonField::Str(report.kind.clone())),
            (owned("report"), JsonField::Str(report.report.clone())),
            (owned("task"), JsonField::Str(report.task.clone())),
            (owned("tool_calls"), JsonField::Count(report.tool_calls as u64)),
        ];
        let ghost fv = crate::json::fields_view(fields@);
        proof {
            reveal_strlit("kind");
            reveal_strlit("report");
            reveal_strlit("task");
            reveal_strlit("tool_calls");
            assert(fv =~= seq![
                ("kind"@, JsonFieldView::Str(report.kind@)),
                ("report"@, JsonFieldView::Str(report.report@)),
                ("task"@, JsonFieldView::Str(report.task@)),
                ("tool_calls"@, JsonFieldView::Count(report.tool_calls as u64)),
            ]);
            assert("kind"@[0] != "report"@[0]);
            assert("kind"@[0] != "task"@[0]);
            assert("report"@[0] != "task"@[0]);
            assert("report"@[0] != "tool_calls"@[0]);
            assert("task"@[1] != "tool_calls"@[1]);
            assert(crate::json::texts_read(fv));
        }
        let p = match crate::json::json_object(&fields) {
            Some(p) => p,
            None => {
                assert(false);
                String::new()
            },
        };
        proof {
            assert(fields@[0].1 matches JsonField::Str(s) && s@ == report.kind@);
            assert(fields@[1].1 matches JsonField::Str(s) && s@ == report.report@);
            assert(fields@[2].1 matches JsonField::Str(s) && s@ == report.task@);
            reveal_event_kinds();
        }
        let note = subagent_note_exec(report.kind.as_str(), report.task.as_str(), report.report.as_str());
        let ghost before = messages_view(self.transcript@);
        self.transcript.push(ModelMessage { role: MessageRole::System, content: note });
        assert(messages_view(self.transcript@) =~= before.push(
            (MessageRole::System, subagent_note(report.kind@, report.task@, report.report@)),
        ));
        (
            (owned("subagent_result"), p),
            (owned("subagent_result"), report.report.clone()),
        )
    }
}

/// A planning turn runs only calls that read: every call it lets run is
/// read-only, and every call it holds back gets the plan-mode refusal.
pub proof fn lemma_plan_turn_only_reads(cs: Seq<CallView>)
    ensures
        forall|k: int| 0 <= k < allowed_calls(cs).len() ==> read_only_tool(#[trigger] allowed_calls(cs)[k].0),
        forall|k: int|
            0 <= k < blocked_results(cs).len() ==> !(#[trigger] blocked_results(cs)[k]).1
                && blocked_results(cs)[k].2 == plan_block_text(),
        allowed_calls(cs).len() + blocked_results(cs).len() == cs.len(),
    decreases cs.len(),
{
    if cs.len() > 0 {
        lemma_plan_turn_only_reads(cs.drop_last());
        let a = allowed_calls(cs.drop_last());
        let b = blocked_results(cs.drop_last());
        if read_only_tool(cs.last().0) {
            assert forall|k: int| 0 <= k < allowed_calls(cs).len() implies read_only_tool(
                #[trigger] allowed_calls(cs)[k].0,
            ) by {
                if k < a.len() {
                    assert(allowed_calls(cs)[k] == a[k]);
                }
            }
        } else {
            assert forall|k: int| 0 <= k < blocked_results(cs).len() implies !(#[trigger] blocked_results(
                cs,
            )[k]).1 && blocked_results(cs)[k].2 == plan_block_text() by {
                if k < b.len() {
                    assert(blocked_results(cs)[k] == b[k]);
                }
            }
        }
    }
}

/// A restored transcript keeps at most its notes and 24 more messages, and
/// a short one is kept whole.
pub proof fn lemma_trim_bound(t: Seq<(MessageRole, Seq<char>)>)
    ensures
        trimmed_transcript(t).len() <= durable(t).len() + 24,
        t.len() <= 24 ==> trimmed_transcript(t) == t,
        durable(t).len() <= t.len(),
    decreases t.len(),
{
    if t.len() > 0 {
        lemma_trim_bound(t.drop_last());
    }
}

} // verus!
