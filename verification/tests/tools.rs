use ccx::permissions::{PermissionEngine, PermissionProfile};
use ccx::tools::{
    display_relative, edit_file_text, glob_output, grep_file, render_tool_results,
    shell_output_json, string_arg, ToolCall, ToolPlan, ToolRegistry, ToolResult,
};

fn registry() -> ToolRegistry {
    ToolRegistry::new(
        "/work".to_string(),
        PermissionEngine::new(PermissionProfile::Ask, "/work".to_string(), false),
    )
}

fn call(tool: &str, args: &str) -> ToolCall {
    ToolCall::new(tool.to_string(), args.to_string(), None)
}

#[test]
fn calls_are_planned_from_their_arguments() {
    let r = registry();
    match r.plan(&call("read_file", "{\"path\":\"a.rs\"}")) {
        ToolPlan::ReadFile { path } => assert_eq!(path, "a.rs"),
        other => panic!("unexpected {other:?}"),
    }
    match r.plan(&call("glob", "{\"pattern\":\"src/*.rs\"}")) {
        ToolPlan::Glob { pattern } => assert_eq!(pattern, "/work/src/*.rs"),
        other => panic!("unexpected {other:?}"),
    }
    match r.plan(&call("grep", "{\"query\":\"x\"}")) {
        ToolPlan::Grep { query, path } => {
            assert_eq!(query, "x");
            assert_eq!(path, ".");
        }
        other => panic!("unexpected {other:?}"),
    }
    match r.plan(&call("write_file", "{\"path\":\"a\"}")) {
        ToolPlan::Done(result) => {
            assert!(!result.success);
            assert_eq!(result.content, "missing string argument `content`");
        }
        other => panic!("unexpected {other:?}"),
    }
    match r.plan(&call("fly", "{}")) {
        ToolPlan::Done(result) => assert_eq!(result.content, "unknown tool `fly`"),
        other => panic!("unexpected {other:?}"),
    }
    assert_eq!(r.resolve("/etc/x"), "/etc/x");
    assert_eq!(r.resolve("src/a.rs"), "/work/src/a.rs");
    assert_eq!(string_arg("{\"n\":1}", "n"), Err("missing string argument `n`".to_string()));
    assert!(ToolRegistry::tool_manifest().contains("edit_file"));
}

#[test]
fn edits_replace_the_first_occurrence() {
    assert_eq!(edit_file_text("a b a", "a", "c", "f").unwrap(), "c b a");
    assert_eq!(edit_file_text("a", "z", "c", "f").unwrap_err(), "old text was not found in f");
}

#[test]
fn glob_and_grep_stop_at_two_hundred() {
    let files: Vec<String> = (0..201).map(|i| format!("f{i}")).collect();
    let out = glob_output(&files);
    assert_eq!(out.lines().count(), 201);
    assert!(out.ends_with("f199\n<truncated at 200 matches>"));
    assert_eq!(glob_output(&vec!["a".to_string(), "b".to_string()]), "a\nb");

    let mut found = Vec::new();
    assert!(!grep_file(&mut found, "src/a.rs", "let x = 1;\n  // TODO: x  \nnone", "TODO"));
    assert_eq!(found, vec!["src/a.rs:2:// TODO: x".to_string()]);
    let content = "hit\n".repeat(250);
    let mut found = Vec::new();
    assert!(grep_file(&mut found, "f", &content, "hit"));
    assert_eq!(found.len(), 201);
    assert_eq!(found[200], "<truncated at 200 matches>");
}

#[test]
fn shell_output_and_relative_paths() {
    let out = shell_output_json(-1, "o\"k", "err");
    assert_eq!(out, "{\"status\":-1,\"stderr\":\"err\",\"stdout\":\"o\\\"k\"}");
    assert_eq!(display_relative("/work/", "/work/src/a.rs", false), "src/a.rs");
    assert_eq!(display_relative("/work", "/work", false), "");
    assert_eq!(display_relative("/work", "/other/a.rs", false), "/other/a.rs");
    assert_eq!(display_relative("/work", "/workshop/a.rs", false), "/workshop/a.rs");
    assert_eq!(display_relative("C:\\work", "C:\\work\\src\\a.rs", true), "src\\a.rs");
    assert_eq!(display_relative("C:\\work\\", "C:\\work", true), "");
    assert_eq!(display_relative("C:\\work", "C:\\work\\src\\a.rs", false), "C:\\work\\src\\a.rs");
}

#[test]
fn results_render_as_pretty_json() {
    let results = vec![ToolResult { tool: "shell".to_string(), success: true, content: "x".to_string() }];
    let expected = "Tool results:\n[\n  {\n    \"tool\": \"shell\",\n    \"success\": true,\n    \"content\": \"x\"\n  }\n]";
    assert_eq!(render_tool_results(&results), expected);
    assert_eq!(render_tool_results(&Vec::new()), "Tool results:\n[]");
}

#[test]
fn protected_paths_are_refused_before_running() {
    let registry = ToolRegistry::new(
        "/w".to_string(),
        PermissionEngine::new(PermissionProfile::WorkspaceWrite, "/w".to_string(), true),
    );
    let plan = registry.plan(&ToolCall::new("write_file".to_string(), "{\"path\":\".env\",\"content\":\"x\"}".to_string(), None));
    assert_eq!(registry.check_protected(&plan), Err("credential path denied: .env".to_string()));
    let plan = registry.plan(&ToolCall::new("read_file".to_string(), "{\"path\":\"src/a.rs\"}".to_string(), None));
    assert_eq!(registry.check_protected(&plan), Ok(()));
    let plan = registry.plan(&ToolCall::new("git_status".to_string(), "{}".to_string(), None));
    assert_eq!(registry.check_protected(&plan), Ok(()));
    let danger = ToolRegistry::new(
        "/w".to_string(),
        PermissionEngine::new(PermissionProfile::DangerFullAccess, "/w".to_string(), true),
    );
    let plan = danger.plan(&ToolCall::new("read_file".to_string(), "{\"path\":\".git/config\"}".to_string(), None));
    assert_eq!(danger.check_protected(&plan), Ok(()));
}

#[test]
fn windows_registries_refuse_the_system_root() {
    let registry = ToolRegistry::new(
        "C:\\w".to_string(),
        PermissionEngine::new(PermissionProfile::WorkspaceWrite, "C:\\w".to_string(), true),
    )
    .with_system_root("C:\\Windows".to_string());
    assert_eq!(registry.system_root, Some("C:\\Windows".to_string()));
    assert_eq!(registry.resolve("src\\a.rs"), "C:\\w\\src\\a.rs");
    assert_eq!(registry.resolve("\\x\\y"), "C:\\x\\y");
    assert_eq!(registry.resolve("D:\\y"), "D:\\y");
    assert_eq!(registry.resolve("/etc/x"), "C:/etc/x");
    let plan = registry.plan(&ToolCall::new("read_file".to_string(), "{\"path\":\"C:\\\\WINDOWS\\\\win.ini\"}".to_string(), None));
    assert_eq!(registry.check_protected(&plan), Err("system path denied: C:\\WINDOWS\\win.ini".to_string()));
    let plan = registry.plan(&ToolCall::new("read_file".to_string(), "{\"path\":\"src\\\\.git\\\\HEAD\"}".to_string(), None));
    assert_eq!(registry.check_protected(&plan), Err("protected path denied: src\\.git\\HEAD".to_string()));
}

#[test]
fn strings_are_quoted_with_json_escapes() {
    let results = vec![ToolResult {
        tool: "t".to_string(),
        success: true,
        content: "a\"b\\c\nd\te\u{1}\u{1f}\u{7f}é".to_string(),
    }];
    assert_eq!(
        render_tool_results(&results),
        "Tool results:\n[\n  {\n    \"tool\": \"t\",\n    \"success\": true,\n    \"content\": \"a\\\"b\\\\c\\nd\\te\\u0001\\u001f\u{7f}é\"\n  }\n]"
    );
}

#[test]
fn patches_are_planned_for_apply_patch_and_edit_file() {
    let registry = ToolRegistry::new(
        "/w".to_string(),
        PermissionEngine::new(PermissionProfile::WorkspaceWrite, "/w".to_string(), true),
    );
    let call = ToolCall::new("apply_patch".to_string(), "{\"patch\":\"@@\\n-a\\n+b\",\"path\":\"x.txt\"}".to_string(), None);
    match registry.plan(&call) {
        ToolPlan::PatchFile { path, patch } => {
            assert_eq!(path, "x.txt");
            assert_eq!(patch, "@@\n-a\n+b");
        }
        other => panic!("expected a patch, got {other:?}"),
    }
    let call = ToolCall::new("edit_file".to_string(), "{\"patch\":\"@@\\n-a\\n+b\",\"path\":\"x.txt\"}".to_string(), None);
    assert!(matches!(registry.plan(&call), ToolPlan::PatchFile { .. }));
    let call = ToolCall::new("apply_patch".to_string(), "{\"path\":\"x.txt\"}".to_string(), None);
    match registry.plan(&call) {
        ToolPlan::Done(result) => assert_eq!(result.content, "missing string argument `patch`"),
        other => panic!("expected a failure, got {other:?}"),
    }
    let call = ToolCall::new("edit_file".to_string(), "{\"path\":\"x.txt\",\"new\":\"b\"}".to_string(), None);
    match registry.plan(&call) {
        ToolPlan::Done(result) => assert_eq!(result.content, "missing string argument `old`"),
        other => panic!("expected a failure, got {other:?}"),
    }
}
