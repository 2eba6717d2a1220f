use std::sync::Arc;

use rapidgate::gateway_core::config::ProviderKind;
use rapidgate::gateway_core::provider::{Provider, ProviderRegistry};

struct MockProvider {
    id: String,
    kind: ProviderKind,
    base_url: String,
    api_key: String,
    models: Vec<String>,
}

impl MockProvider {
    fn new(
        id: impl Into<String>,
        kind: ProviderKind,
        base_url: impl Into<String>,
        api_key: impl Into<String>,
        models: Vec<String>,
    ) -> Self {
        Self { id: id.into(), kind, base_url: base_url.into(), api_key: api_key.into(), models }
    }
}

impl Provider for MockProvider {
    // The two descriptions for the verifier are never run.
    fn spec_id(&self) -> vstd::seq::Seq<char> {
        unreachable!()
    }

    fn spec_supports(&self, _model: vstd::seq::Seq<char>) -> bool {
        unreachable!()
    }

    fn id(&self) -> &str {
        &self.id
    }

    fn kind(&self) -> ProviderKind {
        self.kind
    }

    fn base_url(&self) -> &str {
        &self.base_url
    }

    fn api_key(&self) -> &str {
        &self.api_key
    }

    fn supports_model(&self, model: &str) -> bool {
        self.models.iter().any(|m| m == model)
    }

    fn supported_models(&self) -> &[String] {
        &self.models
    }
}

#[test]
fn test_register_and_get() {
    let mut registry = ProviderRegistry::new();
    let provider = Arc::new(MockProvider::new(
        "openai",
        ProviderKind::OpenAI,
        "https://api.openai.com/v1",
        "sk-test",
        vec!["gpt-4".to_string(), "gpt-3.5-turbo".to_string()],
    ));

    registry.register(provider.clone());
    assert_eq!(registry.len(), 1);

    let retrieved = registry.get("openai");
    assert!(retrieved.is_some());
    assert_eq!(retrieved.unwrap().id(), "openai");
}

#[test]
fn test_find_by_model() {
    let mut registry = ProviderRegistry::new();

    let openai = Arc::new(MockProvider::new(
        "openai",
        ProviderKind::OpenAI,
        "https://api.openai.com/v1",
        "sk-test",
        vec!["gpt-4".to_string(), "gpt-3.5-turbo".to_string()],
    ));

    let anthropic = Arc::new(MockProvider::new(
        "anthropic",
        ProviderKind::Anthropic,
        "https://api.anthropic.com",
        "sk-ant-test",
        vec!["opus-3".to_string(), "gpt-4".to_string()],
    ));

    registry.register(openai);
    registry.register(anthropic);

    let gpt4_providers = registry.find_by_model("gpt-4");
    assert_eq!(gpt4_providers.len(), 2);

    let opus_providers = registry.find_by_model("opus-3");
    assert_eq!(opus_providers.len(), 1);
    assert_eq!(opus_providers[0].id(), "anthropic");

    let unknown_providers = registry.find_by_model("unknown-model");
    assert_eq!(unknown_providers.len(), 0);
}

#[test]
fn register_same_id_replaces() {
    let mut registry: ProviderRegistry<dyn Provider> = ProviderRegistry::default();
    registry.register(Arc::new(MockProvider::new("p", ProviderKind::Local, "u1", "k", vec![])));
    registry.register(Arc::new(MockProvider::new("p", ProviderKind::Gemini, "u2", "k", vec![])));
    assert_eq!(registry.len(), 1);
    assert_eq!(registry.get("p").unwrap().base_url(), "u2");
    assert_eq!(registry.list().len(), 1);
}

#[test]
fn unregister_removes_only_that_id() {
    let mut registry: ProviderRegistry<dyn Provider> = ProviderRegistry::new();
    registry.register(Arc::new(MockProvider::new("a", ProviderKind::Local, "u", "k", vec![])));
    registry.register(Arc::new(MockProvider::new("b", ProviderKind::Local, "u", "k", vec![])));
    let removed = registry.unregister("a");
    assert_eq!(removed.unwrap().id(), "a");
    assert!(registry.get("a").is_none());
    assert!(registry.get("b").is_some());
    assert!(registry.unregister("a").is_none());
    assert_eq!(registry.len(), 1);
    registry.unregister("b");
    assert!(registry.is_empty());
}

#[test]
fn provider_kind_names() {
    assert_eq!(ProviderKind::OpenAI.as_str(), "openai");
    assert_eq!(ProviderKind::Anthropic.as_str(), "anthropic");
    assert_eq!(ProviderKind::Gemini.as_str(), "gemini");
    assert_eq!(ProviderKind::Local.as_str(), "local");
    assert_eq!(ProviderKind::default(), ProviderKind::OpenAI);
}
