use ccx::subagents::{
    infer_subagent_tool_call, normalize_kind, read_only_tool_manifest, subagent_prompt,
    subagent_tool_gate,
};
use ccx::tools::ToolCall;

#[test]
fn normalizes_common_subagent_aliases() {
    assert_eq!(normalize_kind("planning"), "plan");
    assert_eq!(normalize_kind("debug"), "test-debug");
}

#[test]
fn read_only_manifest_excludes_write_tools() {
    let manifest = read_only_tool_manifest();
    assert!(manifest.contains("read_file"));
    assert!(!manifest.contains("write_file"));
    assert!(!manifest.contains("shell"));
}

#[test]
fn recovers_workspace_read_as_glob() {
    let call =
        infer_subagent_tool_call(r#"{"action":"read_file","path":"coding harness"}"#).unwrap();
    assert_eq!(call.tool, "glob");
    assert_eq!(call.arguments, "{\"pattern\":\"src/**/*.rs\"}");
}

#[test]
fn other_kinds_keep_their_name() {
    assert_eq!(normalize_kind("review"), "review");
    assert!(subagent_prompt("review").contains("Findings first."));
    assert!(subagent_prompt("odd").contains("Investigate the task"));
}

#[test]
fn subagents_may_only_read() {
    let write = ToolCall::new("write_file".to_string(), "{}".to_string(), None);
    let denied = subagent_tool_gate(&write).unwrap();
    assert!(!denied.success);
    assert!(denied.content.starts_with("subagents are read-only"));
    let read = ToolCall::new("grep".to_string(), "{}".to_string(), None);
    assert!(subagent_tool_gate(&read).is_none());
    assert!(infer_subagent_tool_call("nothing to do").is_none());
    assert_eq!(infer_subagent_tool_call("run GIT_STATUS").unwrap().tool, "git_status");
}
