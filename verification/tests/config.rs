use ccx::config::{AppConfig, EffortLevel, ModelProfile};

#[test]
fn resolves_effort_by_profile_provider_global_order() {
    let mut config = AppConfig::default();
    config.effort = EffortLevel::Low;
    let mut openai = config.providers.get("openai").unwrap().clone();
    openai.effort = Some(EffortLevel::High);
    config.providers.insert("openai".to_string(), openai);
    let mut custom = ModelProfile::default();
    custom.provider = Some("openai".to_string());
    custom.effort = Some(EffortLevel::Max);
    config.model_profiles.insert("custom".to_string(), custom);

    assert_eq!(config.resolve_effort("openai", "custom"), EffortLevel::Max);
    assert_eq!(config.resolve_effort("openai", "unknown"), EffortLevel::High);
    assert_eq!(config.resolve_effort("missing", "unknown"), EffortLevel::Low);
}

#[test]
fn parses_legacy_reasoning_effort() {
    let mut config = AppConfig::default();
    let mut provider = config.providers.get("local").unwrap().clone();
    provider.effort = None;
    provider.reasoning_effort = Some("high".to_string());
    config.providers.insert("local".to_string(), provider);

    assert_eq!(config.resolve_effort("local", "unknown"), EffortLevel::High);
}

#[test]
fn effort_names_parse_case_insensitively() {
    assert_eq!(EffortLevel::from_str("  MAXIMUM "), Ok(EffortLevel::Max));
    assert_eq!(EffortLevel::from_str("default"), Ok(EffortLevel::Medium));
    assert_eq!(
        EffortLevel::from_str(" Turbo "),
        Err("unknown effort level `turbo`; use low, medium, high, or max".to_string())
    );
    assert_eq!(EffortLevel::Max.openai_reasoning_effort(), "high");
    assert_eq!(EffortLevel::Low.as_str(), "low");
}

#[test]
fn default_config_keeps_provider_names_in_order() {
    let config = AppConfig::default();
    let names: Vec<&str> = config.providers.entries.iter().map(|(name, _)| name.as_str()).collect();
    assert_eq!(names, vec!["anthropic", "local", "ollama", "openai"]);
    assert_eq!(config.resolve_effort("openai", "gpt-5.5"), EffortLevel::High);
    assert_eq!(config.resolve_effort("ollama", "qwen3.5:0.8b"), EffortLevel::Low);
    assert_eq!(config.resolve_effort("anthropic", "other-model"), EffortLevel::Medium);
}

fn windows_env(appdata: &str, username: &str) -> ccx::config::PathEnv {
    ccx::config::PathEnv {
        windows: true,
        home: None,
        appdata: Some(appdata.to_string()),
        username: Some(username.to_string()),
        user: None,
    }
}

#[test]
fn configuration_paths_follow_the_platform() {
    let unix = ccx::config::PathEnv {
        windows: false,
        home: Some("/home/me".to_string()),
        appdata: None,
        username: None,
        user: None,
    };
    assert_eq!(AppConfig::config_path(&unix), Ok("/home/me/.config/ClaudeCodeX/config.toml".to_string()));
    assert_eq!(AppConfig::data_dir(&unix), Ok("/home/me/.local/share/ClaudeCodeX".to_string()));
    let env = windows_env("C:\\Users\\me\\AppData\\Roaming", "me");
    assert_eq!(
        AppConfig::config_path(&env),
        Ok("C:\\Users\\me\\AppData\\Roaming\\me\\ClaudeCodeX\\config.toml".to_string())
    );
    assert_eq!(
        AppConfig::data_dir(&env),
        Ok("C:\\Users\\me\\AppData\\Roaming\\me\\ClaudeCodeX\\data".to_string())
    );
    assert_eq!(AppConfig::config_path(&windows_env("C:", "u")), Ok("C:u\\ClaudeCodeX\\config.toml".to_string()));
    assert_eq!(AppConfig::data_dir(&windows_env("C:\\a", "\\x")), Ok("C:\\x\\ClaudeCodeX\\data".to_string()));
    assert_eq!(AppConfig::data_dir(&windows_env("C:\\a", "D:\\y")), Ok("D:\\y\\ClaudeCodeX\\data".to_string()));
    let none = ccx::config::PathEnv { windows: false, home: None, appdata: None, username: None, user: None };
    assert_eq!(AppConfig::config_path(&none), Err("HOME is not set".to_string()));
}
