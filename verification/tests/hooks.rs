use ccx::hooks::{hook_outcome, post_tool_payload, pre_tool_payload, HookRunner};
use ccx::tools::{ToolCall, ToolResult};

#[test]
fn pre_tool_payload_names_phase_tool_and_arguments() {
    let call = ToolCall::new("read_file".to_string(), "{\"path\":\"a.rs\"}".to_string(), None);
    assert_eq!(
        pre_tool_payload(&call),
        Some("{\"arguments\":{\"path\":\"a.rs\"},\"phase\":\"pre-tool\",\"tool\":\"read_file\"}".to_string())
    );
    let odd = ToolCall::new("read_file".to_string(), "{ \"path\" : \"a.rs\" }".to_string(), None);
    assert_eq!(
        pre_tool_payload(&odd),
        Some("{\"arguments\":{\"path\":\"a.rs\"},\"phase\":\"pre-tool\",\"tool\":\"read_file\"}".to_string())
    );
    let broken = ToolCall::new("read_file".to_string(), "{path".to_string(), None);
    assert_eq!(pre_tool_payload(&broken), None);
}

#[test]
fn post_tool_payload_escapes_content() {
    let result = ToolResult { tool: "shell".to_string(), success: false, content: "a\"b\n".to_string() };
    assert_eq!(
        post_tool_payload(&result),
        "{\"content\":\"a\\\"b\\n\",\"phase\":\"post-tool\",\"success\":false,\"tool\":\"shell\"}"
    );
}

#[test]
fn hook_outcome_reports_denials() {
    assert_eq!(hook_outcome("check", true, Some(0), ""), Ok(()));
    assert_eq!(
        hook_outcome("check", false, Some(2), "  nope\n"),
        Err("hook `check` denied operation with status Some(2): nope".to_string())
    );
    assert_eq!(
        hook_outcome("guard", false, None, ""),
        Err("hook `guard` denied operation with status None: ".to_string())
    );
    assert_eq!(
        hook_outcome("neg", false, Some(-1), "x"),
        Err("hook `neg` denied operation with status Some(-1): x".to_string())
    );
}

#[test]
fn default_runner_has_no_hooks() {
    let runner = HookRunner::default();
    assert!(runner.pre_tool.is_empty());
    assert!(runner.post_tool.is_empty());
}
