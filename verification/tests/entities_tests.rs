use aisix::entities::{validate_config, Guardrail, GuardrailConfig, Provider, ProviderConfig};
use aisix::json::JsonValue;
use aisix::providers::AzureProviderConfig;

#[test]
fn guardrail_types_are_named() {
    let g = Guardrail { name: "pii".to_string(), guardrail: GuardrailConfig::Regex(JsonValue::Object(Vec::new())) };
    assert_eq!(g.guardrail_type(), "regex");
    assert_eq!(GuardrailConfig::Bedrock(JsonValue::Null).guardrail_type(), "bedrock");
    assert!(validate_config("pii", &g.guardrail).is_ok());
}

#[test]
fn provider_types_are_named() {
    let p = Provider {
        name: "prod".to_string(),
        provider: ProviderConfig::Azure(AzureProviderConfig {
            api_key: "k".to_string(),
            api_base: "https://x.openai.azure.com".to_string(),
            api_version: None,
        }),
    };
    assert_eq!(p.provider_type(), "azure");
    assert_eq!(ProviderConfig::DeepSeek(JsonValue::Null).provider_type(), "deepseek");
    assert_eq!(ProviderConfig::OpenAI(JsonValue::Null).provider_type(), "openai");
    assert_eq!(ProviderConfig::Anthropic(JsonValue::Null).provider_type(), "anthropic");
    assert_eq!(ProviderConfig::Bedrock(JsonValue::Null).provider_type(), "bedrock");
}
