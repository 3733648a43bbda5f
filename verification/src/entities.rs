//! The configuration entities the gateway reads from its store: guardrails
//! and provider deployments, each of a named type.
use vstd::prelude::*;

use crate::json::JsonValue;
use crate::providers::{AzureProviderConfig, GeminiProviderConfig, OpenRouterProviderConfig};

verus! {

/// The settings of a guardrail, by its type. The settings of each type
/// are kept as the JSON object they were given as.
#[derive(Debug)]
pub enum GuardrailConfig {
    Bedrock(JsonValue),
    Regex(JsonValue),
}

/// The type name of a guardrail configuration.
pub open spec fn guardrail_type_name(c: GuardrailConfig) -> Seq<char> {
    match c {
        GuardrailConfig::Bedrock(_) => "bedrock"@,
        GuardrailConfig::Regex(_) => "regex"@,
    }
}

impl GuardrailConfig {
    /// The type name: `bedrock` or `regex`.
    pub fn guardrail_type(&self) -> (r: &'static str)
        ensures
            r@ == guardrail_type_name(*self),
    {
        match self {
            GuardrailConfig::Bedrock(_) => "bedrock",
            GuardrailConfig::Regex(_) => "regex",
        }
    }
}

/// A named guardrail.
#[derive(Debug)]
pub struct Guardrail {
    pub name: String,
    pub guardrail: GuardrailConfig,
}

impl Guardrail {
    /// The type name of the guardrail's configuration.
    pub fn guardrail_type(&self) -> (r: &'static str)
        ensures
            r@ == guardrail_type_name(self.guardrail),
    {
        self.guardrail.guardrail_type()
    }
}

/// Checks a guardrail's configuration beyond its schema; every type is
/// accepted as it is.
pub fn validate_config(key: &str, config: &GuardrailConfig) -> (r: Result<(), String>)
    ensures
        r is Ok,
{
    match config {
        GuardrailConfig::Bedrock(_) => Ok(()),
        GuardrailConfig::Regex(_) => Ok(()),
    }
}

/// The settings of a provider deployment, by provider type. Types whose
/// settings the gateway does not read itself keep them as the JSON object
/// they were given as.
#[derive(Debug)]
pub enum ProviderConfig {
    Anthropic(JsonValue),
    Azure(AzureProviderConfig),
    Bedrock(JsonValue),
    DeepSeek(JsonValue),
    Gemini(GeminiProviderConfig),
    OpenAI(JsonValue),
    OpenRouter(OpenRouterProviderConfig),
}

/// The type name of a provider configuration.
pub open spec fn provider_type_name(c: ProviderConfig) -> Seq<char> {
    match c {
        ProviderConfig::Anthropic(_) => "anthropic"@,
        ProviderConfig::Azure(_) => "azure"@,
        ProviderConfig::Bedrock(_) => "bedrock"@,
        ProviderConfig::DeepSeek(_) => "deepseek"@,
        ProviderConfig::Gemini(_) => "gemini"@,
        ProviderConfig::OpenAI(_) => "openai"@,
        ProviderConfig::OpenRouter(_) => "openrouter"@,
    }
}

impl ProviderConfig {
    /// The type name, which is the registry name of the provider.
    pub fn provider_type(&self) -> (r: &'static str)
        ensures
            r@ == provider_type_name(*self),
    {
        match self {
            ProviderConfig::Anthropic(_) => "anthropic",
            ProviderConfig::Azure(_) => "azure",
            ProviderConfig::Bedrock(_) => "bedrock",
            ProviderConfig::DeepSeek(_) => "deepseek",
            ProviderConfig::Gemini(_) => "gemini",
            ProviderConfig::OpenAI(_) => "openai",
            ProviderConfig::OpenRouter(_) => "openrouter",
        }
    }
}

/// A named provider deployment.
#[derive(Debug)]
pub struct Provider {
    pub name: String,
    pub provider: ProviderConfig,
}

impl Provider {
    /// The type name of the deployment's configuration.
    pub fn provider_type(&self) -> (r: &'static str)
        ensures
            r@ == provider_type_name(self.provider),
    {
        self.provider.provider_type()
    }
}

} // verus!
