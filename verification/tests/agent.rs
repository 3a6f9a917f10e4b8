use ccx::agent::{
    auto_effort_for_task, budget_messages, compact_transcript, first_fenced_block, git_branch,
    git_diff, git_repo_state, infer_file_write, infer_target_path, local_model_prompt,
    normalize_local_tool_path, parse_work_mode, strip_fence, WorkMode,
};
use ccx::config::EffortLevel;
use ccx::parser::parse_model_output;
use ccx::providers::{MessageRole, ModelMessage};
use ccx::tools::ToolCall;

fn argument(arguments: &str, key: &str) -> serde_json::Value {
    let value: serde_json::Value = serde_json::from_str(arguments).unwrap();
    value[key].clone()
}

#[test]
fn parses_multiple_tool_calls() {
    let parsed = parse_model_output(
        r#"hi <tool_call>{"tool":"read_file","arguments":{"path":"Cargo.toml"}}</tool_call>
            <tool_call>{"tool":"git_status","arguments":{}}</tool_call>"#,
    )
    .unwrap();
    let calls = parsed.calls;
    assert_eq!(calls.len(), 2);
    assert_eq!(calls[0].tool, "read_file");
    assert_eq!(calls[1].tool, "git_status");
}

#[test]
fn strips_tool_call_blocks() {
    let parsed = parse_model_output(
        r#"before <tool_call>{"tool":"git_status","arguments":{}}</tool_call> after"#,
    )
    .unwrap();
    assert_eq!(parsed.visible_text.trim(), "before  after");
}

#[test]
fn infers_html_write_for_web_page() {
    let call = infer_file_write(
        "Create a simple web page",
        "```html\n<!DOCTYPE html><html><body></body></html>\n```",
    )
    .unwrap();
    assert_eq!(call.tool, "write_file");
    assert_eq!(argument(&call.arguments, "path"), "index.html");
}

#[test]
fn infers_first_html_fence_before_explanation() {
    let call = infer_file_write(
        "Create index.html",
        "```html\n<!DOCTYPE html><html><body>ok</body></html>\n```\n\nI created it.",
    )
    .unwrap();
    assert_eq!(
        argument(&call.arguments, "content"),
        "<!DOCTYPE html><html><body>ok</body></html>"
    );
}

#[test]
fn normalizes_vague_local_file_path() {
    let mut call = ToolCall::new(
        "write_file".to_string(),
        "{\"content\":\"x\",\"path\":\"file\"}".to_string(),
        None,
    );
    normalize_local_tool_path("Create index.html", &mut call);
    assert_eq!(argument(&call.arguments, "path"), "index.html");
    assert_eq!(call.arguments, "{\"content\":\"x\",\"path\":\"index.html\"}");
}

#[test]
fn work_modes_parse_leniently() {
    assert_eq!(parse_work_mode("  PLANNING "), WorkMode::Plan);
    assert_eq!(parse_work_mode("plan"), WorkMode::Plan);
    assert_eq!(parse_work_mode("agent"), WorkMode::Agent);
    assert_eq!(parse_work_mode("other"), WorkMode::Agent);
}

#[test]
fn effort_follows_the_task() {
    assert_eq!(auto_effort_for_task(EffortLevel::Medium, "Review this"), EffortLevel::Low);
    assert_eq!(auto_effort_for_task(EffortLevel::Medium, "refactor it"), EffortLevel::High);
    assert_eq!(auto_effort_for_task(EffortLevel::Max, "review"), EffortLevel::Max);
    assert_eq!(auto_effort_for_task(EffortLevel::Low, "hello"), EffortLevel::Low);
}

#[test]
fn target_paths_come_from_requests_to_create() {
    assert_eq!(infer_target_path("write docs/notes.md, please"), Some("docs/notes.md".to_string()));
    assert_eq!(infer_target_path("make a web page"), Some("index.html".to_string()));
    assert_eq!(infer_target_path("read index.html"), None);
    assert_eq!(infer_target_path("create `a\\b.json`"), Some("a/b.json".to_string()));
}

#[test]
fn fences_are_unwrapped() {
    assert_eq!(first_fenced_block("x ```js\n let a = 1; \n``` y"), Some("let a = 1;".to_string()));
    assert_eq!(first_fenced_block("no fence"), None);
    assert_eq!(strip_fence("```html\n<p>\n```", "html"), Some("<p>".to_string()));
    assert_eq!(strip_fence("```", ""), None);
    assert!(infer_file_write("Create data.json", "not json").is_none());
}

fn msg(role: MessageRole, content: &str) -> ModelMessage {
    ModelMessage::new(role, content.to_string())
}

#[test]
fn compaction_keeps_the_last_eight_messages() {
    let mut t = vec![msg(MessageRole::User, "a")];
    assert_eq!(compact_transcript(&mut t), "context already compact");
    assert_eq!(t.len(), 1);

    let mut t = vec![
        msg(MessageRole::User, "build it"),
        msg(MessageRole::Tool, "\"success\": true wrote b.txt\nwrote"),
        msg(MessageRole::Tool, "\"success\": false edited a.txt"),
    ];
    for i in 0..8 {
        t.push(msg(MessageRole::Assistant, &format!("m{i}")));
    }
    let summary = compact_transcript(&mut t);
    assert_eq!(
        summary,
        "Compacted 3 messages. Goals: build it. Tool results: 1 ok, 1 failed. Files touched: a.txt, b.txt."
    );
    assert_eq!(t.len(), 9);
    assert_eq!(t[0].content, format!("Session summary so far:\n{summary}"));
    assert_eq!(t[1].content, "m0");
}

#[test]
fn budget_keeps_newest_messages_and_system_ones() {
    let ms = vec![
        msg(MessageRole::System, "sys"),
        msg(MessageRole::User, "0123456789"),
        msg(MessageRole::Assistant, "abc"),
    ];
    let kept = budget_messages(ms, Some(7));
    let texts: Vec<&str> = kept.iter().map(|m| m.content.as_str()).collect();
    assert_eq!(texts, vec!["sys", "abc"]);
    let all = budget_messages(vec![msg(MessageRole::User, "x")], None);
    assert_eq!(all.len(), 1);
}

#[test]
fn local_prompt_is_cut_at_its_limit() {
    let full = local_model_prompt("/w", "rules", None);
    assert!(full.starts_with("You are ClaudeCodeX."));
    assert!(full.ends_with("Project instructions:\nrules"));
    let cut = local_model_prompt("/w", "rules", Some(10));
    assert_eq!(cut, "You are Cl\n...[truncated]");
}

#[test]
fn git_outputs_are_read() {
    assert_eq!(git_branch("main\nextra"), "main");
    assert_eq!(git_branch("fatal: not a git repository"), "no-git");
    assert_eq!(git_repo_state(""), "clean");
    assert_eq!(git_repo_state(" M a.rs"), "dirty");
    assert_eq!(git_diff("1 file", "diff"), "1 file\ndiff");
    assert_eq!(git_diff("", "diff"), "diff");
}
