use shrimp::provider::normalize_url;
use shrimp::provider::HostEnv;
use shrimp::provider::ProviderKind;
use shrimp::provider::ModelProfile;

fn no_env() -> HostEnv {
    HostEnv { ollama_host: None, lm_studio_host: None }
}

#[test]
fn test_normalize_url() {
    assert_eq!(normalize_url("hub:11434"), "http://hub:11434");
    assert_eq!(normalize_url("http://hub:11434"), "http://hub:11434");
    assert_eq!(normalize_url("https://hub:11434"), "https://hub:11434");
    assert_eq!(normalize_url("   127.0.0.1:1234  "), "http://127.0.0.1:1234");
    assert_eq!(normalize_url(""), "");
}

#[test]
fn test_resolve_base_url() {
    let env = no_env();
    assert_eq!(
        ProviderKind::Ollama.resolve_base_url(Some("http://hub:11434"), &env),
        "http://hub:11434"
    );
    assert_eq!(
        ProviderKind::LmStudio.resolve_base_url(Some("http://hub:1234"), &env),
        "http://hub:1234"
    );

    let env = HostEnv {
        ollama_host: Some("my-ollama:11434".to_string()),
        lm_studio_host: Some("my-lmstudio:1234".to_string()),
    };
    assert_eq!(ProviderKind::Ollama.resolve_base_url(None, &env), "http://my-ollama:11434");
    assert_eq!(
        ProviderKind::Ollama.resolve_base_url(Some("http://localhost:11434"), &env),
        "http://my-ollama:11434"
    );
    assert_eq!(ProviderKind::LmStudio.resolve_base_url(None, &env), "http://my-lmstudio:1234");
    assert_eq!(
        ProviderKind::LmStudio.resolve_base_url(Some("http://localhost:1234"), &env),
        "http://my-lmstudio:1234"
    );

    let env = no_env();
    assert_eq!(ProviderKind::Ollama.resolve_base_url(None, &env), "http://localhost:11434");
    assert_eq!(ProviderKind::LmStudio.resolve_base_url(None, &env), "http://localhost:1234");
}

#[test]
fn normalizing_twice_changes_nothing() {
    for u in ["hub:1", " https://x ", "", "http://a"] {
        let once = normalize_url(u);
        assert_eq!(normalize_url(&once), once);
    }
}

#[test]
fn provider_names() {
    assert_eq!(ProviderKind::Ollama.as_str(), "ollama");
    assert_eq!(ProviderKind::LmStudio.default_base_url(), "http://localhost:1234");
}

#[test]
fn profile_from_model_name() {
    let p = ModelProfile::infer("Qwen2.5-Coder:7b");
    assert_eq!(p.context_window, 32768);
    assert!(p.supports_tools);
    let p = ModelProfile::infer("phi3");
    assert_eq!(p.context_window, 4096);
    assert!(!p.supports_tools);
    let p = ModelProfile::infer("LLAMA3:8b");
    assert_eq!(p.context_window, 8192);
}
