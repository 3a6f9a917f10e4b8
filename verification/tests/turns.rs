use ccx::agent::{
    reply_or, route_fullscreen_input, route_line, AgentState, AgentTurn, InputRoute, SlashAction, TurnMode,
    TurnStep, UserTurn, WorkMode,
};
use ccx::config::{AppConfig, EffortLevel};
use ccx::context::ProjectContext;
use ccx::providers::{MessageRole, ProviderRegistry};
use ccx::tools::ToolResult;

fn state() -> AgentState {
    let context = ProjectContext { workspace: "/w".to_string(), instruction_files: Vec::new() };
    AgentState::new(AppConfig::default(), context, "0123456789abcdef".to_string())
}

fn providers() -> ProviderRegistry {
    ProviderRegistry::from_config(&AppConfig::default()).unwrap()
}

fn shown(action: &SlashAction) -> String {
    match action {
        SlashAction::Show(text) => text.clone(),
        other => panic!("expected text, got {other:?}"),
    }
}

#[test]
fn new_state_starts_in_agent_mode() {
    let s = state();
    assert_eq!(s.selected_provider, "openai");
    assert_eq!(s.selected_model, "gpt-5.5");
    assert_eq!(s.work_mode, WorkMode::Agent);
    assert_eq!(s.short_session_id(), "01234567");
    assert!(s.transcript.is_empty());
}

#[test]
fn plan_commands_switch_modes() {
    let mut s = state();
    let p = providers();
    let out = s.handle_slash_command(&p, "/plan");
    assert_eq!(shown(&out.action), "plan mode: on");
    assert_eq!(s.work_mode, WorkMode::Plan);
    assert_eq!(out.events, vec![("work_mode".to_string(), "{\"text\":\"plan\"}".to_string())]);

    let out = s.handle_slash_command(&p, "/approve");
    assert_eq!(shown(&out.action), "no pending plan");

    let (reply, event) = s.save_plan("build it", "1. write\n2. test");
    assert!(reply.contains("1. write"));
    assert_eq!(event.0, "pending_plan");
    assert!(matches!(s.user_turn(), UserTurn::Reply(_)));

    let out = s.handle_slash_command(&p, "/plan status");
    assert_eq!(shown(&out.action), "plan mode: plan\npending plan for: build it");

    let out = s.handle_slash_command(&p, "/approve");
    match out.action {
        SlashAction::RunTurn(task) => assert_eq!(
            task,
            "Implement this approved plan for the original task.\n\nOriginal task:\nbuild it\n\nApproved plan:\n1. write\n2. test"
        ),
        other => panic!("expected a turn, got {other:?}"),
    }
    assert_eq!(s.work_mode, WorkMode::Agent);
    assert!(s.pending_plan.is_none());
    assert_eq!(out.events.len(), 2);
    assert_eq!(out.events[0], ("plan_resolved".to_string(), "{\"text\":\"approved\"}".to_string()));

    let out = s.handle_slash_command(&p, "/plan maybe");
    assert_eq!(shown(&out.action), "unknown plan option `maybe`; use /plan on, /plan off, or /plan status");
}

#[test]
fn effort_and_model_commands() {
    let mut s = state();
    let p = providers();
    let out = s.handle_slash_command(&p, "/effort max");
    assert_eq!(shown(&out.action), "effort: max");
    assert_eq!(s.effort_override, Some(EffortLevel::Max));
    let out = s.handle_slash_command(&p, "/effort");
    assert_eq!(shown(&out.action), "effort: max");
    let out = s.handle_slash_command(&p, "/effort huge");
    assert!(matches!(out.action, SlashAction::Fail(_)));

    let out = s.handle_slash_command(&p, "/model anthropic sonnet-x");
    assert_eq!(shown(&out.action), "model: anthropic sonnet-x");
    assert_eq!(s.selected_provider, "anthropic");
    let out = s.handle_slash_command(&p, "/model nowhere m");
    assert!(matches!(out.action, SlashAction::Fail(_)));
    assert_eq!(s.selected_provider, "anthropic");

    let out = s.handle_slash_command(&p, "/subagent review look at tests");
    match out.action {
        SlashAction::RunSubagent(kind, task) => {
            assert_eq!(kind, "review");
            assert_eq!(task, "look at tests");
        }
        other => panic!("expected a subagent, got {other:?}"),
    }
    let out = s.handle_slash_command(&p, "/nope");
    assert_eq!(shown(&out.action), "unknown command `/nope`");
    assert!(matches!(s.handle_slash_command(&p, "/quit").action, SlashAction::Exit));
}

#[test]
fn fullscreen_commands_differ_where_the_screen_does() {
    let mut s = state();
    let p = providers();
    assert!(shown(&s.handle_fullscreen_slash_command(&p, "/help").action).starts_with("Session\n"));
    assert_eq!(
        shown(&s.handle_fullscreen_slash_command(&p, "/clear now").action),
        "unknown command `/clear`"
    );
    assert!(shown(&s.handle_fullscreen_slash_command(&p, "/mascot").action).contains("crab"));
    assert_eq!(shown(&s.handle_fullscreen_slash_command(&p, "/permissions").action), "permissions: ask");
}

#[test]
fn input_routes() {
    assert_eq!(route_line("  /help \n"), (InputRoute::Command, "/help".to_string()));
    assert_eq!(route_line("   "), (InputRoute::Ignore, String::new()));
    assert_eq!(route_line(" fix it"), (InputRoute::Request, "fix it".to_string()));
    assert_eq!(route_fullscreen_input("/clear"), InputRoute::ClearScreen);
    assert_eq!(route_fullscreen_input("/clear all"), InputRoute::Command);
    assert_eq!(route_fullscreen_input("hello"), InputRoute::Request);
    assert_eq!(reply_or("  \n", "Done."), "Done.");
    assert_eq!(reply_or("ok", "Done."), "ok");
}

#[test]
fn a_turn_runs_tools_then_finishes() {
    let mut s = state();
    let (mut turn, events): (AgentTurn, _) = s.begin_turn("explain the code", TurnMode::Implement);
    assert_eq!(events, vec![("user".to_string(), "{\"text\":\"explain the code\"}".to_string())]);
    assert_eq!(turn.turns_left, 8);

    let req = turn.next_request(&s, None).unwrap();
    assert_eq!(req.provider, "openai");
    assert_eq!(req.request.model, "gpt-5.5");
    assert_eq!(turn.turns_left, 7);
    let last = req.request.messages.last().unwrap();
    assert_eq!(last.role, MessageRole::User);
    assert_eq!(last.content, "explain the code");

    let (step, events) =
        turn.on_response(&mut s, "Checking. <tool_call>{\"tool\":\"git_status\",\"arguments\":{}}</tool_call>");
    let calls = match step {
        TurnStep::Execute(calls) => calls,
        other => panic!("expected calls, got {other:?}"),
    };
    assert_eq!(calls.len(), 1);
    assert_eq!(calls[0].tool, "git_status");
    assert_eq!(events[0].0, "assistant");
    assert_eq!(events[1].0, "tool_call");

    let result = ToolResult { tool: "git_status".to_string(), success: true, content: "clean".to_string() };
    let (finished, events) = turn.on_results(&mut s, vec![result]);
    assert!(finished.is_none());
    assert_eq!(events, vec![(
        "tool_result".to_string(),
        "{\"content\":\"clean\",\"success\":true,\"tool\":\"git_status\"}".to_string()
    )]);
    assert_eq!(s.transcript.last().unwrap().role, MessageRole::Tool);

    let (step, _) = turn.on_response(&mut s, "All clean.");
    match step {
        TurnStep::Finish(out) => assert_eq!(out, "Checking.\n\nAll clean."),
        other => panic!("expected the end, got {other:?}"),
    }
}

#[test]
fn plan_turns_block_writes() {
    let mut s = state();
    let (mut turn, _) = s.begin_turn("plan it", TurnMode::PlanOnly);
    let _ = turn.next_request(&s, None).unwrap();
    let (step, _) = turn.on_response(
        &mut s,
        "<tool_call>{\"tool\":\"write_file\",\"arguments\":{\"path\":\"a\",\"content\":\"b\"}}</tool_call><tool_call>{\"tool\":\"read_file\",\"arguments\":{\"path\":\"a\"}}</tool_call>",
    );
    match step {
        TurnStep::Execute(calls) => {
            assert_eq!(calls.len(), 1);
            assert_eq!(calls[0].tool, "read_file");
        }
        other => panic!("expected calls, got {other:?}"),
    }
    assert_eq!(turn.blocked.len(), 1);
    assert!(!turn.blocked[0].success);
}

#[test]
fn turns_stop_at_the_limit() {
    let mut config = AppConfig::default();
    config.max_agent_turns = 1;
    let context = ProjectContext { workspace: "/w".to_string(), instruction_files: Vec::new() };
    let mut s = AgentState::new(config, context, "id".to_string());
    let (mut turn, _) = s.begin_turn("loop", TurnMode::Implement);
    assert!(turn.next_request(&s, None).is_ok());
    assert_eq!(
        turn.next_request(&s, None).unwrap_err(),
        "agent reached max turn limit (1) before completing"
    );
}

#[test]
fn simple_requests_route_to_the_local_profile() {
    let mut s = state();
    let (mut turn, _) = s.begin_turn("show status", TurnMode::Implement);
    let req = turn.next_request(&s, None).unwrap();
    assert_eq!(req.provider, "ollama");
}

#[test]
fn replaying_recorded_events_restores_the_session() {
    let mut s = state();
    let p = providers();
    let mut events = vec![("metadata".to_string(), s.metadata_payload())];
    events.extend(s.handle_slash_command(&p, "/effort low").events);
    events.extend(s.handle_slash_command(&p, "/plan on").events);
    let (_turn, begun) = s.begin_turn("plan the work", TurnMode::PlanOnly);
    events.extend(begun);
    let (_, saved) = s.save_plan("plan the work", "1. do it");
    events.push(saved);

    let context = ProjectContext { workspace: "/w".to_string(), instruction_files: Vec::new() };
    let mut restored = AgentState::new(AppConfig::default(), context, "other".to_string());
    restored.restore_transcript(&events);
    assert_eq!(restored.selected_provider, s.selected_provider);
    assert_eq!(restored.selected_model, s.selected_model);
    assert_eq!(restored.effort_override, Some(EffortLevel::Low));
    assert_eq!(restored.work_mode, WorkMode::Plan);
    let plan = restored.pending_plan.as_ref().unwrap();
    assert_eq!(plan.task, "plan the work");
    assert_eq!(plan.plan, "1. do it");
    assert_eq!(restored.transcript.len(), 1);
    assert_eq!(restored.transcript[0].content, "plan the work");

    let out = restored.handle_slash_command(&p, "/reject");
    assert_eq!(out.events, vec![("plan_resolved".to_string(), "{\"text\":\"rejected\"}".to_string())]);
    restored.restore_transcript(&out.events);
    assert!(restored.pending_plan.is_none());
}

#[test]
fn replaying_subagent_reports_and_summaries() {
    let mut s = state();
    let report = ccx::subagents::SubagentReport {
        kind: "review".to_string(),
        task: "check tests".to_string(),
        report: "all good".to_string(),
        tool_calls: 2,
    };
    let (event, memory) = s.record_subagent(&report);
    assert_eq!(event.0, "subagent_result");
    assert_eq!(event.1, "{\"kind\":\"review\",\"report\":\"all good\",\"task\":\"check tests\",\"tool_calls\":2}");
    assert_eq!(memory, ("subagent_result".to_string(), "all good".to_string()));
    assert_eq!(s.transcript[0].content, "Subagent `review` report for `check tests`:\nall good");

    let context = ProjectContext { workspace: "/w".to_string(), instruction_files: Vec::new() };
    let mut restored = AgentState::new(AppConfig::default(), context, "other".to_string());
    restored.restore_transcript(&vec![event]);
    assert_eq!(restored.transcript.len(), 1);
    assert_eq!(restored.transcript[0].content, s.transcript[0].content);

    let p = providers();
    for n in 0..10 {
        let _ = s.begin_turn(&format!("request {n}"), TurnMode::Implement);
    }
    let out = s.handle_slash_command(&p, "/compact");
    assert_eq!(out.events.len(), 1);
    assert_eq!(out.events[0].0, "compact_summary");
    assert!(s.transcript[0].content.starts_with("Session summary so far:\n"));
    assert_eq!(s.transcript.len(), 9);
}

#[test]
fn replayed_tool_results_keep_their_payloads() {
    let mut s = state();
    let (mut turn, mut events) = s.begin_turn("explain the code", TurnMode::Implement);
    let _ = turn.next_request(&s, None).unwrap();
    let (_, more) = turn.on_response(&mut s, "<tool_call>{\"tool\":\"git_diff\",\"arguments\":{}}</tool_call>");
    events.extend(more);
    let result = ToolResult { tool: "git_diff".to_string(), success: false, content: "no repo".to_string() };
    let (_, more) = turn.on_results(&mut s, vec![result]);
    events.extend(more);

    let context = ProjectContext { workspace: "/w".to_string(), instruction_files: Vec::new() };
    let mut restored = AgentState::new(AppConfig::default(), context, "other".to_string());
    restored.restore_transcript(&events);
    assert_eq!(restored.transcript.len(), 3);
    assert_eq!(restored.transcript[0].role, MessageRole::User);
    assert_eq!(restored.transcript[1].role, MessageRole::Assistant);
    assert_eq!(restored.transcript[2].role, MessageRole::Tool);
    assert_eq!(restored.transcript[2].content, "{\"content\":\"no repo\",\"success\":false,\"tool\":\"git_diff\"}");
}
