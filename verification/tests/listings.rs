use ccx::config::{AppConfig, McpServerConfig};
use ccx::mcp::server_lines;
use ccx::session::{first_user_message, session_line, session_matches};
use ccx::skills::{skill_name, skill_preview, Skill};
use ccx::tasks::{finished_status, matches_task, no_task_message, tail_lines, task_line};

#[test]
fn skills_preview_first_three_lines() {
    assert_eq!(skill_preview("# Title\nline two\nline three\nline four"), "# Title line two line three");
    assert_eq!(skill_preview("one"), "one");
    assert_eq!(skill_preview(""), "");
    assert_eq!(skill_name(Some("deploy")), "deploy");
    assert_eq!(skill_name(None), "skill");
    let skill = Skill { name: "deploy".to_string(), path: "/w/.ccx/skills/deploy.md".to_string(), preview: "Ship it".to_string() };
    assert_eq!(skill.listing(), "deploy  /w/.ccx/skills/deploy.md\n  Ship it");
}

#[test]
fn tasks_tail_and_lines() {
    assert_eq!(tail_lines("a\nb\nc\nd", 2), "c\nd");
    assert_eq!(tail_lines("a\nb", 5), "a\nb");
    assert_eq!(tail_lines("a\nb", 0), "");
    assert_eq!(task_line("1234", "running", "fix it", false), "1234  running  fix it");
    assert_eq!(task_line("1234", "running", "fix it", true), "1234  cancel-requested  fix it");
    assert_eq!(finished_status(true), "complete");
    assert_eq!(finished_status(false), "failed");
    assert!(matches_task("abcdef", "abc"));
    assert!(!matches_task("abcdef", "abd"));
    assert_eq!(no_task_message("zz"), "no task found for `zz`");
}

#[test]
fn sessions_list_first_request() {
    let long = "x".repeat(100);
    assert_eq!(session_line("id1", "hello\nworld"), "id1  hello world");
    assert_eq!(session_line("id2", &long), format!("id2  {}", "x".repeat(96)));
    assert!(session_matches("abc123", Some("c12")));
    assert!(!session_matches("abc123", Some("zz")));
    assert!(session_matches("abc123", None));

    let events = vec![
        ("system".to_string(), "{\"text\":\"no\"}".to_string()),
        ("user".to_string(), "{\"other\":1}".to_string()),
        ("user".to_string(), "{\"text\":\"first\"}".to_string()),
        ("user".to_string(), "{\"text\":\"second\"}".to_string()),
    ];
    assert_eq!(first_user_message(&events), "first");
    assert_eq!(first_user_message(&Vec::new()), "");
    let events = vec![("user".to_string(), format!("{{\"text\":\"{}\"}}", long))];
    assert_eq!(first_user_message(&events).chars().count(), 96);
}

#[test]
fn mcp_servers_are_listed_by_name() {
    let mut config = AppConfig::default();
    assert_eq!(server_lines(&config), vec!["No MCP servers configured.".to_string()]);
    config.mcp.servers.insert(
        "web".to_string(),
        McpServerConfig::Http { url: "https://x".to_string(), bearer_token_env: Some("TOKEN".to_string()) },
    );
    config.mcp.servers.insert(
        "fs".to_string(),
        McpServerConfig::Stdio { command: "mcp-fs".to_string(), args: vec!["--root".to_string(), ".".to_string()] },
    );
    config.mcp.servers.insert(
        "plain".to_string(),
        McpServerConfig::Http { url: "http://y".to_string(), bearer_token_env: None },
    );
    assert_eq!(
        server_lines(&config),
        vec![
            "fs: stdio mcp-fs --root .".to_string(),
            "plain: http http://y".to_string(),
            "web: http https://x auth=$TOKEN".to_string(),
        ]
    );
}

fn skill(name: &str, path: &str) -> ccx::skills::Skill {
    ccx::skills::Skill { name: name.to_string(), path: path.to_string(), preview: String::new() }
}

#[test]
fn skills_are_markdown_files_sorted_stably_by_name() {
    assert!(ccx::skills::is_skill_file(Some("md")));
    assert!(!ccx::skills::is_skill_file(Some("txt")));
    assert!(!ccx::skills::is_skill_file(None));
    let sorted = ccx::skills::sort_skills(vec![
        skill("review", "/a/review.md"),
        skill("build", "/a/build.md"),
        skill("review", "/b/review.md"),
        skill("Zeta", "/a/Zeta.md"),
    ]);
    let seen: Vec<(&str, &str)> = sorted.iter().map(|s| (s.name.as_str(), s.path.as_str())).collect();
    assert_eq!(
        seen,
        vec![("Zeta", "/a/Zeta.md"), ("build", "/a/build.md"), ("review", "/a/review.md"), ("review", "/b/review.md")]
    );
}

#[test]
fn glob_search_stops_at_two_hundred() {
    assert!(!ccx::tools::glob_search_full(199));
    assert!(ccx::tools::glob_search_full(200));
}
