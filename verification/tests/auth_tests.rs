use aisix::auth::{add_provider_context, with_provider_context, AwsStaticCredentials, GatewayError, ProviderAuth};

fn credentials() -> AwsStaticCredentials {
    AwsStaticCredentials {
        access_key_id: "AKIA123".to_string(),
        secret_access_key: "secret".to_string(),
        session_token: Some("token".to_string()),
        region: "us-east-1".to_string(),
    }
}

#[test]
fn provider_auth_debug_redacts_api_key() {
    assert_eq!(ProviderAuth::ApiKey("sk-secret".to_string()).debug_string(), "ApiKey(REDACTED)");
    assert_eq!(
        ProviderAuth::AwsStatic(AwsStaticCredentials {
            access_key_id: "AKIA...".to_string(),
            secret_access_key: "secret".to_string(),
            session_token: Some("token".to_string()),
            region: "us-east-1".to_string(),
        })
        .debug_string(),
        "AwsStatic(REDACTED)"
    );
    assert_eq!(ProviderAuth::Unset.debug_string(), "None");
}

#[test]
fn provider_auth_api_key_requires_api_key_variant() {
    assert_eq!(ProviderAuth::ApiKey("sk-secret".to_string()).api_key().unwrap(), "sk-secret");

    let error = ProviderAuth::Unset.api_key().unwrap_err();
    assert!(matches!(
        error,
        GatewayError::Validation(message) if message.contains("ProviderAuth::ApiKey")
    ));
}

#[test]
fn provider_auth_api_key_for_adds_provider_context() {
    let error = ProviderAuth::Unset.api_key_for("deepseek").unwrap_err();

    assert!(matches!(
        error,
        GatewayError::Validation(message)
            if message.contains("deepseek") && message.contains("ProviderAuth::ApiKey")
    ));
}

#[test]
fn provider_auth_bedrock_static_credentials_accessor_returns_credentials() {
    let expected = credentials();
    let auth = ProviderAuth::AwsStatic(credentials());

    assert_eq!(auth.aws_static_credentials().unwrap(), &expected);

    let error = ProviderAuth::Unset.aws_static_credentials_for("bedrock").unwrap_err();
    assert!(matches!(
        error,
        GatewayError::Validation(message)
            if message.contains("bedrock") && message.contains("ProviderAuth::AwsStatic")
    ));
}

#[test]
fn api_key_error_message_is_exact() {
    let error = ProviderAuth::AwsStatic(credentials()).api_key().unwrap_err();
    assert!(matches!(error, GatewayError::Validation(m) if m == "missing ProviderAuth::ApiKey value"));
    let error = ProviderAuth::Unset.api_key_for("groq").unwrap_err();
    assert!(matches!(error, GatewayError::Validation(m) if m == "provider groq: missing ProviderAuth::ApiKey value"));
}

#[test]
fn aws_credentials_error_message_is_exact() {
    let error = ProviderAuth::ApiKey("k".to_string()).aws_static_credentials().unwrap_err();
    assert!(matches!(error, GatewayError::Validation(m) if m == "missing ProviderAuth::AwsStatic value"));
    let auth = ProviderAuth::AwsStatic(credentials());
    assert_eq!(auth.aws_static_credentials_for("bedrock").unwrap().region, "us-east-1");
}

#[test]
fn provider_context_prefixes_validation_errors_only() {
    assert_eq!(with_provider_context("xai", "bad"), "provider xai: bad");
    let e = add_provider_context(GatewayError::Validation("bad".to_string()), "xai");
    assert!(matches!(e, GatewayError::Validation(m) if m == "provider xai: bad"));
    let e = add_provider_context(GatewayError::Transform("bad".to_string()), "xai");
    assert!(matches!(e, GatewayError::Transform(m) if m == "bad"));
}
