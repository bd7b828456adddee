use shrimp::config::ShrimpConfig;
use shrimp::config::ConfigFile;
use shrimp::config::CliOverrides;
use shrimp::config::apply_overrides;
use shrimp::config::parse_provider;
use shrimp::provider::HostEnv;
use shrimp::provider::ProviderKind;

fn no_env() -> HostEnv {
    HostEnv { ollama_host: None, lm_studio_host: None }
}

#[test]
fn missing_file_gives_defaults() {
    let c = ShrimpConfig::from_file("/r".to_string(), None, &no_env());
    assert_eq!(c.provider, ProviderKind::Ollama);
    assert_eq!(c.base_url, "http://localhost:11434");
    assert_eq!(c.model, "qwen2.5-coder:7b");
    assert!(c.auto_approve);
    assert_eq!(c.max_context_tokens, 8192);
    assert_eq!(c.index_dir(), "/r/.shrimp/index");
}

#[test]
fn every_field_is_optional() {
    let f = ConfigFile {
        provider: Some(ProviderKind::LmStudio),
        base_url: None,
        model: Some("gemma4:12b".to_string()),
        auto_approve: None,
        max_context_tokens: Some(4096),
    };
    let c = ShrimpConfig::from_file("/r".to_string(), Some(f), &no_env());
    assert_eq!(c.provider, ProviderKind::LmStudio);
    assert_eq!(c.base_url, "http://localhost:1234");
    assert_eq!(c.model, "gemma4:12b");
    assert!(c.auto_approve);
    assert_eq!(c.max_context_tokens, 4096);
}

#[test]
fn command_line_overrides() {
    let mut c = ShrimpConfig::defaults("/r".to_string(), &no_env());
    let cli = CliOverrides { provider: Some("lmstudio".to_string()), model: Some("m".to_string()), base_url: None };
    apply_overrides(&mut c, &cli, &no_env());
    assert_eq!(c.provider, ProviderKind::LmStudio);
    assert_eq!(c.base_url, "http://localhost:1234");
    assert_eq!(c.model, "m");
    assert_eq!(parse_provider("lm-studio"), ProviderKind::LmStudio);
    assert_eq!(parse_provider("whatever"), ProviderKind::Ollama);
}
