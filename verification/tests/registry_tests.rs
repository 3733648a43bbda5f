use aisix::auth::GatewayError;
use aisix::registry::{default_provider_registry, BuiltinProvider, ProviderRegistry};

#[test]
fn provider_registry_registers_and_looks_up_definitions() {
    let registry = ProviderRegistry::builder().register(BuiltinProvider::Mistral).unwrap().build();

    let provider = registry.get("mistral").unwrap();
    assert_eq!(provider.name(), "mistral");
    assert!(registry.get("missing").is_none());
}

#[test]
fn provider_registry_rejects_duplicate_names() {
    let error = ProviderRegistry::builder()
        .register(BuiltinProvider::Mistral)
        .unwrap()
        .register(BuiltinProvider::Mistral)
        .err()
        .unwrap();

    assert!(matches!(error, GatewayError::Validation(m) if m == "provider mistral is already registered"));
}

#[test]
fn default_registry_finds_every_builtin() {
    let registry = default_provider_registry().unwrap();
    for name in [
        "azure",
        "fireworks-ai",
        "gemini",
        "groq",
        "mistral",
        "modelscope",
        "modelscope-cn",
        "openrouter",
        "stepfun",
        "xai",
        "zhipuai",
    ] {
        assert_eq!(registry.get(name).unwrap().name(), name);
    }
    assert!(registry.get("missing").is_none());
}
