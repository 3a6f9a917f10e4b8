use ccx::config::AppConfig;
use ccx::providers::{
    extract_anthropic_text, extract_local_openai_text, extract_openai_response_text, role_name,
    MessageRole, ModelMessage, ModelRequest, ProviderRegistry,
};

fn request() -> ModelRequest {
    ModelRequest {
        model: "m".to_string(),
        messages: vec![
            ModelMessage::new(MessageRole::System, "sys one".to_string()),
            ModelMessage::new(MessageRole::User, "hi".to_string()),
            ModelMessage::new(MessageRole::System, "sys two".to_string()),
            ModelMessage::new(MessageRole::Assistant, "hello".to_string()),
            ModelMessage::new(MessageRole::Tool, "done".to_string()),
        ],
    }
}

#[test]
fn registry_has_one_provider_per_config_entry() {
    let config = AppConfig::default();
    let registry = ProviderRegistry::from_config(&config).unwrap();
    let names: Vec<String> = registry.summaries().into_iter().map(|s| s.name).collect();
    assert_eq!(names, vec!["anthropic", "local", "ollama", "openai"]);
    let openai = registry.get("openai").unwrap();
    assert_eq!(openai.url("/responses"), "https://api.openai.com/v1/responses");
    assert_eq!(
        registry.get("nope").err(),
        Some("provider `nope` is not configured".to_string())
    );
}

#[test]
fn summaries_show_kind_url_and_key() {
    let registry = ProviderRegistry::from_config(&AppConfig::default()).unwrap();
    let lines: Vec<String> = registry.summaries().iter().map(|s| s.to_text()).collect();
    assert_eq!(lines[0], "anthropic: anthropic-messages https://api.anthropic.com/v1 key=$ANTHROPIC_API_KEY");
    assert_eq!(lines[1], "local: local-openai-compatible http://localhost:11434/v1 key=<none>");
}

#[test]
fn roles_map_tool_results_to_user() {
    assert_eq!(role_name(&MessageRole::Tool), "user");
    assert_eq!(role_name(&MessageRole::Assistant), "assistant");
}

#[test]
fn request_bodies_are_compact_sorted_json() {
    let registry = ProviderRegistry::from_config(&AppConfig::default()).unwrap();
    let openai = registry.get("openai").unwrap();
    let body: serde_json::Value = serde_json::from_str(&openai.openai_request_body(&request())).unwrap();
    assert_eq!(body["instructions"], "sys one\n\nsys two");
    assert_eq!(body["input"], "user: hi\n\nassistant: hello\n\nuser: done");
    assert_eq!(body["max_output_tokens"], 8192);
    assert!(body.get("reasoning").is_none());

    let anthropic = registry.get("anthropic").unwrap();
    let text = anthropic.anthropic_request_body(&request());
    assert!(text.starts_with("{\"max_tokens\":8192,\"messages\":[{\"content\":\"hi\",\"role\":\"user\"}"));
    let body: serde_json::Value = serde_json::from_str(&text).unwrap();
    assert_eq!(body["system"], "sys one\n\nsys two");
    assert_eq!(body["messages"][2]["role"], "user");

    let local = registry.get("local").unwrap();
    let body: serde_json::Value = serde_json::from_str(&local.local_request_body(&request())).unwrap();
    assert_eq!(body["stream"], false);
    assert_eq!(body["max_tokens"], 4096);
    assert_eq!(body["messages"][0]["content"], "Harness and project instructions:\nsys one\n\nsys two");
    assert_eq!(body["messages"][3]["role"], "user");
}

#[test]
fn replies_are_read() {
    assert_eq!(extract_openai_response_text("{\"output_text\":\"hi\"}").unwrap(), "hi");
    assert_eq!(
        extract_openai_response_text(
            "{\"output\":[{\"content\":[{\"text\":\"a\"},{\"x\":1}]},{\"content\":[{\"text\":\"b\"}]}]}"
        )
        .unwrap(),
        "ab"
    );
    assert_eq!(
        extract_openai_response_text("{}").unwrap_err(),
        "OpenAI response did not contain text output"
    );
    assert_eq!(
        extract_anthropic_text(
            "{\"content\":[{\"type\":\"text\",\"text\":\"x\"},{\"type\":\"tool_use\",\"text\":\"no\"},{\"type\":\"text\",\"text\":\"y\"}]}"
        )
        .unwrap(),
        "xy"
    );
    assert!(extract_anthropic_text("{\"content\":[]}").is_err());
    assert_eq!(
        extract_local_openai_text("{\"choices\":[{\"message\":{\"content\":\"  \",\"reasoning\":\"r\"}}]}"),
        "r"
    );
    assert_eq!(
        extract_local_openai_text("{\"choices\":[{\"message\":{\"content\":\"c\"}}]}"),
        "c"
    );
    assert_eq!(extract_local_openai_text("{\"choices\":[]}"), "");
}

#[test]
fn endpoints_list_themselves_as_providers() {
    let registry = ProviderRegistry::from_config(&AppConfig::default()).unwrap();
    let endpoint = registry.get("anthropic").unwrap();
    let summary = ccx::providers::ModelProvider::summary(endpoint);
    assert_eq!(summary.name, "anthropic");
    assert_eq!(summary.kind, "anthropic-messages");
    assert_eq!(summary.base_url, "https://api.anthropic.com/v1");
    assert_eq!(summary.api_key_env, Some("ANTHROPIC_API_KEY".to_string()));
    assert_eq!(endpoint.url("/messages"), "https://api.anthropic.com/v1/messages");
}
