use agentflow::config::{
    default_anthropic_key_env, default_max_tokens, default_openai_base, default_openai_key_env,
    default_prompt_via, AgentConfig, Config, ConfigError, ProviderConfig,
};

fn agent(name: &str, provider: &str) -> AgentConfig {
    AgentConfig { name: name.to_string(), provider: provider.to_string(), system: format!("role of {name}") }
}

fn cli(command: &str) -> ProviderConfig {
    ProviderConfig::Cli { command: command.to_string(), args: vec![], prompt_via: "stdin".to_string() }
}

#[test]
fn defaults_match_the_documented_values() {
    assert_eq!(default_max_tokens(), 4096);
    assert_eq!(default_anthropic_key_env(), "ANTHROPIC_API_KEY");
    assert_eq!(default_openai_key_env(), "OPENAI_API_KEY");
    assert_eq!(default_openai_base(), "https://api.openai.com/v1");
    assert_eq!(default_prompt_via(), "stdin");
}

#[test]
fn validate_refuses_a_pipeline_without_agents() {
    let cfg = Config { providers: vec![("c".to_string(), cli("askbot"))], agents: vec![] };
    let err = cfg.validate().unwrap_err();
    assert!(matches!(err, ConfigError::NoAgents));
    assert_eq!(err.message(), "Config không có agent nào trong pipeline");
}

#[test]
fn validate_reports_the_first_agent_with_an_unknown_provider() {
    let cfg = Config {
        providers: vec![("c".to_string(), cli("askbot"))],
        agents: vec![agent("researcher", "c"), agent("planner", "gpt"), agent("coder", "opus")],
    };
    match cfg.validate() {
        Err(ConfigError::UnknownProvider { agent, provider }) => {
            assert_eq!(agent, "planner");
            assert_eq!(provider, "gpt");
        }
        other => panic!("unexpected {:?}", other),
    }
    let msg = cfg.validate().unwrap_err().message();
    assert_eq!(msg, "Agent 'planner' trỏ tới provider 'gpt' không tồn tại");
}

#[test]
fn validate_accepts_agents_that_all_name_declared_providers() {
    let cfg = Config {
        providers: vec![("c".to_string(), cli("askbot")), ("x".to_string(), cli("draftbot"))],
        agents: vec![agent("researcher", "x"), agent("planner", "c")],
    };
    assert!(cfg.validate().is_ok());
}

#[test]
fn provider_lookup_finds_the_first_declaration() {
    let cfg = Config {
        providers: vec![
            ("a".to_string(), cli("one")),
            ("b".to_string(), cli("two")),
            ("b".to_string(), cli("three")),
        ],
        agents: vec![],
    };
    assert_eq!(cfg.provider_index(&"b".to_string()), Some(1));
    assert_eq!(cfg.provider_index(&"z".to_string()), None);
    match cfg.provider(&"b".to_string()) {
        Some(ProviderConfig::Cli { command, .. }) => assert_eq!(command, "two"),
        other => panic!("unexpected {:?}", other),
    }
    assert!(cfg.provider(&"z".to_string()).is_none());
}

#[test]
fn api_key_env_is_named_only_by_api_providers() {
    let a = ProviderConfig::Anthropic { model: "m".into(), max_tokens: 1, api_key_env: "K".into() };
    let o = ProviderConfig::Openai {
        model: "m".into(),
        max_tokens: 1,
        api_key_env: "OK".into(),
        base_url: "u".into(),
    };
    assert_eq!(a.api_key_env().map(|s| s.as_str()), Some("K"));
    assert_eq!(o.api_key_env().map(|s| s.as_str()), Some("OK"));
    assert_eq!(cli("askbot").api_key_env(), None);
}

#[test]
fn provider_names_are_checked_for_repeats() {
    let mut cfg = Config {
        providers: vec![("a".to_string(), cli("one")), ("b".to_string(), cli("two"))],
        agents: vec![],
    };
    assert!(cfg.unique_provider_names());
    cfg.providers.push(("c".to_string(), cli("three")));
    assert!(cfg.unique_provider_names());
    cfg.providers.push(("b".to_string(), cli("four")));
    assert!(!cfg.unique_provider_names());
}
