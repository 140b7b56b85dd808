use zterm_llm::llm_id::LLMId;
use zterm_llm::provider::LocalLLMProvider;
use zterm_llm::text::trim_end_matches;
use zterm_llm::settings::{resolve_base_url, LocalLLMSettings, LocalLLMSettingsEvent};

#[test]
fn default_base_urls_use_documented_ports() {
    assert_eq!(LocalLLMProvider::Ollama.default_base_url(), "http://localhost:11434/v1");
    assert_eq!(LocalLLMProvider::LMStudio.default_base_url(), "http://localhost:1234/v1");
    assert_eq!(LocalLLMProvider::Custom.default_base_url(), "http://localhost:8080/v1");
}

#[test]
fn display_names() {
    assert_eq!(LocalLLMProvider::Ollama.display_name(), "Ollama");
    assert_eq!(LocalLLMProvider::LMStudio.display_name(), "LM Studio");
    assert_eq!(LocalLLMProvider::Custom.display_name(), "Custom (OpenAI-compatible)");
}

#[test]
fn default_provider_is_ollama() {
    assert_eq!(LocalLLMProvider::default(), LocalLLMProvider::Ollama);
}

#[test]
fn ollama_lists_models_at_api_tags() {
    let p = LocalLLMProvider::Ollama;
    assert_eq!(p.models_endpoint(p.default_base_url()), "http://localhost:11434/api/tags");
    assert_eq!(p.models_endpoint("http://host:1/v1/v1"), "http://host:1/api/tags");
    assert_eq!(p.models_endpoint("http://host:1"), "http://host:1/api/tags");
}

#[test]
fn openai_style_providers_list_models_below_base() {
    let p = LocalLLMProvider::LMStudio;
    assert_eq!(p.models_endpoint(p.default_base_url()), "http://localhost:1234/v1/models");
    assert_eq!(LocalLLMProvider::Custom.models_endpoint("http://x/v1"), "http://x/v1/models");
}

#[test]
fn health_endpoints() {
    let p = LocalLLMProvider::Ollama;
    assert_eq!(p.health_endpoint(p.default_base_url()), "http://localhost:11434/");
    assert_eq!(
        LocalLLMProvider::LMStudio.health_endpoint("http://localhost:1234/v1"),
        "http://localhost:1234/v1/models"
    );
}

#[test]
fn new_settings_are_disabled_defaults() {
    let s = LocalLLMSettings::new();
    assert!(!s.enabled);
    assert_eq!(s.provider, LocalLLMProvider::Ollama);
    assert!(s.base_url.is_none());
    assert_eq!(s.selected_model.as_deref(), Some("gemma3:4b"));
    assert!(!s.is_enabled());
    let d = LocalLLMSettings::default();
    assert!(!d.enabled && d.base_url.is_none());
    assert_eq!(d.selected_model.as_deref(), Some("gemma3:4b"));
}

#[test]
fn enabled_needs_a_model() {
    let mut s = LocalLLMSettings::new();
    s.set_selected_model(None);
    s.set_enabled(true);
    assert!(!s.is_enabled());
    s.set_selected_model(Some("mistral:7b".to_string()));
    assert!(s.is_enabled());
    s.set_enabled(false);
    assert!(!s.is_enabled());
}

#[test]
fn base_url_override_and_default() {
    let mut s = LocalLLMSettings::new();
    assert_eq!(s.base_url(), "http://localhost:11434/v1");
    s.set_provider(LocalLLMProvider::LMStudio);
    assert_eq!(s.base_url(), "http://localhost:1234/v1");
    s.set_base_url(Some("http://gpu-box:9000/v1".to_string()));
    assert_eq!(s.base_url(), "http://gpu-box:9000/v1");
    s.set_base_url(None);
    assert_eq!(s.base_url(), "http://localhost:1234/v1");
    assert_eq!(resolve_base_url(LocalLLMProvider::Custom, None), "http://localhost:8080/v1");
    assert_eq!(resolve_base_url(LocalLLMProvider::Custom, Some("http://a")), "http://a");
}

#[test]
fn settings_event_variant() {
    assert_eq!(LocalLLMSettingsEvent::SettingsUpdated, LocalLLMSettingsEvent::SettingsUpdated);
}

#[test]
fn llm_id_is_local() {
    assert!(LLMId::from("local-ollama-hex-6162").is_local());
    assert!(LLMId::from("local-").is_local());
    assert!(!LLMId::from("gpt-4o").is_local());
    assert!(!LLMId::from("loca").is_local());
}

#[test]
fn llm_id_conversions() {
    let id = LLMId::from("mixtral".to_string());
    assert_eq!(id.as_str(), "mixtral");
    assert_eq!(id.to_string(), "mixtral");
    let s: String = id.clone().into();
    assert_eq!(s, "mixtral");
    assert!(id == LLMId::from("mixtral"));
    assert!(id != LLMId::from("other"));
}

#[test]
fn enabling_new_settings_uses_the_default_model() {
    let mut s = LocalLLMSettings::new();
    s.set_enabled(true);
    assert!(s.is_enabled());
}

#[test]
fn trim_end_matches_agrees_with_std() {
    for (s, pat) in [("http://a/v1/v1", "/v1"), ("abc", ""), ("", "x"), ("xxx", "x"), ("ab/v", "/v1"), ("éé", "é")] {
        assert_eq!(trim_end_matches(s, pat), s.trim_end_matches(pat), "{:?} {:?}", s, pat);
    }
}
