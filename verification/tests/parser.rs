use ccx::parser::parse_model_output;

fn argument(arguments: &str, key: &str) -> serde_json::Value {
    let value: serde_json::Value = serde_json::from_str(arguments).unwrap();
    value[key].clone()
}

#[test]
fn parses_strict_xml_tool_call() {
    let parsed = parse_model_output(
        r#"<tool_call>{"tool":"read_file","arguments":{"path":"Cargo.toml"}}</tool_call>"#,
    )
    .unwrap();
    assert_eq!(parsed.calls.len(), 1);
    assert_eq!(parsed.calls[0].tool, "read_file");
}

#[test]
fn parses_fenced_json_tool_call() {
    let parsed = parse_model_output(
        "```json\n{\"tool\":\"write_file\",\"arguments\":{\"path\":\"index.html\",\"content\":\"x\"}}\n```",
    )
    .unwrap();
    assert_eq!(parsed.calls[0].tool, "write_file");
}

#[test]
fn parses_simple_action_json() {
    let parsed = parse_model_output(
        r#"{"action":"write_file","path":"index.html","content":"<html></html>"}"#,
    )
    .unwrap();
    assert_eq!(parsed.calls[0].tool, "write_file");
    assert_eq!(argument(&parsed.calls[0].arguments, "path"), "index.html");
}

#[test]
fn recovers_partial_xml_json() {
    let parsed = parse_model_output(
        r#"<tool_call>{"tool":"shell","arguments":{"command":"cargo test"}}"#,
    )
    .unwrap();
    assert_eq!(parsed.calls[0].tool, "shell");
}

#[test]
fn recovers_malformed_local_write_file_action() {
    let parsed = parse_model_output(
        "{\"action\":\"write_file\",\"path\":\"index.html\",\"content\":\"<html>\n<style>\n.card {}\n</style>\n</html>\"}",
    )
    .unwrap();
    assert_eq!(parsed.calls[0].tool, "write_file");
    assert_eq!(argument(&parsed.calls[0].arguments, "path"), "index.html");
    assert!(argument(&parsed.calls[0].arguments, "content")
        .as_str()
        .unwrap()
        .contains("<style>"));
}

#[test]
fn recovers_spaced_fenced_malformed_local_write_file_action() {
    let parsed = parse_model_output(
        "```json\n{\"action\":\"write_file\",\"path\":\"index.html\",\"content\": \"<!DOCTYPE html>\\n<html>ok</html>\\n```\n",
    )
    .unwrap();
    assert_eq!(parsed.calls[0].tool, "write_file");
    assert_eq!(argument(&parsed.calls[0].arguments, "path"), "index.html");
}

#[test]
fn plain_text_has_no_calls_and_stays_visible() {
    let parsed = parse_model_output("Just an answer.").unwrap();
    assert!(parsed.calls.is_empty());
    assert_eq!(parsed.visible_text, "Just an answer.");
}

#[test]
fn xml_block_is_cut_from_visible_text() {
    let parsed = parse_model_output(
        "Reading now. <tool_call>{\"tool\":\"read_file\",\"arguments\":{\"path\":\"a\"},\"call_id\":\"c1\"}</tool_call> Done.",
    )
    .unwrap();
    assert_eq!(parsed.calls.len(), 1);
    assert_eq!(parsed.calls[0].call_id.as_deref(), Some("c1"));
    assert_eq!(parsed.calls[0].arguments, "{\"path\":\"a\"}");
    assert_eq!(parsed.visible_text, "Reading now.  Done.");
}

#[test]
fn tool_without_arguments_gets_empty_object() {
    let parsed = parse_model_output("<tool_call>{\"tool\":\"list_files\"}</tool_call>").unwrap();
    assert_eq!(parsed.calls[0].arguments, "{}");
    assert_eq!(parsed.visible_text, "");
}

#[test]
fn bare_action_output_hides_visible_text() {
    let parsed = parse_model_output("{\"action\":\"shell\",\"command\":\"ls\"}").unwrap();
    assert_eq!(parsed.calls[0].tool, "shell");
    assert_eq!(parsed.calls[0].arguments, "{\"command\":\"ls\"}");
    assert_eq!(parsed.visible_text, "");
}

#[test]
fn repeated_bare_calls_are_kept_once() {
    let parsed = parse_model_output(
        "{\"tool\":\"shell\",\"arguments\":{\"command\":\"ls\"}} and {\"tool\":\"shell\",\"arguments\":{\"command\":\"ls\"}}",
    )
    .unwrap();
    assert_eq!(parsed.calls.len(), 1);
}

#[test]
fn recovered_write_file_arguments_are_sorted_json() {
    let parsed = parse_model_output(
        "{\"action\":\"write_file\",\"path\":\"a.txt\",\"content\":\"x\\ty\n{\"action\":\"write_file\"}",
    )
    .unwrap();
    assert_eq!(parsed.calls.len(), 1);
    assert_eq!(parsed.calls[0].arguments, "{\"content\":\"x\\ty\",\"path\":\"a.txt\"}");
}
