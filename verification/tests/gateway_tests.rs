use aisix::auth::{GatewayError, ProviderAuth};
use aisix::gateway::{
    embed_request, embedding_response_json, extend_headers, has_header, hub_chat_request, native_chat_request, prepare_json_request,
    provider_error, ProviderInstance, COMPLETE_REQUEST_TIMEOUT_SECS,
};
use aisix::json::JsonValue;
use aisix::providers::{FireworksAi, Mistral};

fn pair(name: &str, value: &str) -> (String, String) {
    (name.to_string(), value.to_string())
}

fn obj(fields: Vec<(&str, JsonValue)>) -> JsonValue {
    JsonValue::Object(fields.into_iter().map(|(k, v)| (k.to_string(), v)).collect())
}

fn mistral(auth: ProviderAuth, base_url_override: Option<&str>, custom_headers: Vec<(String, String)>) -> ProviderInstance<Mistral> {
    ProviderInstance {
        def: Mistral,
        auth,
        base_url_override: base_url_override.map(|u| u.to_string()),
        custom_headers,
    }
}

#[test]
fn instance_build_url_joins_default_base_url_and_chat_path() {
    let instance = mistral(ProviderAuth::Unset, None, vec![]);

    assert_eq!(instance.effective_base_url().unwrap(), "https://api.mistral.ai/");
    assert_eq!(instance.build_url("mistral-large").unwrap(), "https://api.mistral.ai/v1/chat/completions");
}

#[test]
fn instance_base_url_override_wins() {
    let instance = mistral(ProviderAuth::Unset, Some("https://proxy.example.com/v1"), vec![]);

    assert_eq!(instance.effective_base_url().unwrap(), "https://proxy.example.com/v1");
    assert_eq!(instance.build_url("m").unwrap(), "https://proxy.example.com/v1/chat/completions");
}

#[test]
fn provider_instance_build_headers_merges_auth_and_custom_headers() {
    let instance = mistral(ProviderAuth::ApiKey("sk-secret".into()), None, vec![pair("x-trace-id", "trace-123")]);

    let headers = instance.build_headers().unwrap();

    assert_eq!(headers, vec![pair("authorization", "Bearer sk-secret"), pair("x-trace-id", "trace-123")]);
}

#[test]
fn instance_custom_header_replaces_auth_header_of_its_name() {
    let instance = mistral(ProviderAuth::ApiKey("sk-secret".into()), None, vec![pair("Authorization", "Basic abc")]);

    let headers = instance.build_headers().unwrap();

    assert_eq!(headers, vec![pair("Authorization", "Basic abc")]);
}

#[test]
fn instance_build_headers_passes_on_missing_key() {
    let instance = mistral(ProviderAuth::Unset, None, vec![pair("x-trace-id", "trace-123")]);

    match instance.build_headers() {
        Err(GatewayError::Validation(m)) => assert_eq!(m, "provider mistral: missing ProviderAuth::ApiKey value"),
        other => panic!("unexpected {other:?}"),
    }
}

#[test]
fn header_names_ignore_ascii_case() {
    let headers = vec![pair("Content-Type", "text/plain")];

    assert!(has_header(&headers, "content-type"));
    assert!(!has_header(&headers, "content-length"));
    assert_eq!(
        extend_headers(&vec![pair("a", "1"), pair("B", "2")], &vec![pair("b", "3")]),
        vec![pair("a", "1"), pair("b", "3")]
    );
}

#[test]
fn prepare_json_request_adds_json_content_type_and_timeout() {
    let body = obj(vec![("model", JsonValue::Str("m".into()))]);

    let request = prepare_json_request("p", "https://example.com/v1/chat", vec![pair("authorization", "Bearer k")], &body, false)
        .unwrap();

    assert_eq!(request.url, "https://example.com/v1/chat");
    assert_eq!(request.headers, vec![pair("authorization", "Bearer k"), pair("content-type", "application/json")]);
    assert_eq!(request.body, r#"{"model":"m"}"#);
    assert!(!request.stream);
    assert_eq!(request.timeout_secs, Some(COMPLETE_REQUEST_TIMEOUT_SECS));
    assert_eq!(COMPLETE_REQUEST_TIMEOUT_SECS, 30);
}

#[test]
fn prepare_json_request_keeps_a_named_content_type_and_waits_for_streams() {
    let request = prepare_json_request("p", "https://example.com", vec![pair("Content-Type", "text/plain")], &JsonValue::Null, true)
        .unwrap();

    assert_eq!(request.url, "https://example.com/");
    assert_eq!(request.headers, vec![pair("Content-Type", "text/plain")]);
    assert_eq!(request.body, "null");
    assert_eq!(request.timeout_secs, None);
}

#[test]
fn prepare_json_request_refuses_invalid_url() {
    match prepare_json_request("p", "not a url", vec![], &JsonValue::Null, false) {
        Err(GatewayError::Validation(m)) => {
            assert_eq!(m, "provider p produced invalid request url not a url: relative URL without a base")
        }
        other => panic!("unexpected {other:?}"),
    }
}

#[test]
fn provider_error_keeps_non_json_body_as_text() {
    match provider_error(502, Some(b"upstream exploded"), "hub-test") {
        GatewayError::Provider { status, body, provider, retryable } => {
            assert_eq!(status, 502);
            assert!(matches!(body, JsonValue::Str(ref s) if s == "upstream exploded"));
            assert_eq!(provider, "hub-test");
            assert!(retryable);
        }
        other => panic!("unexpected {other:?}"),
    }
}

#[test]
fn provider_error_parses_json_body_and_marks_client_errors_final() {
    match provider_error(400, Some(br#"{"error":"bad"}"#), "p") {
        GatewayError::Provider { status, body, retryable, .. } => {
            assert_eq!(status, 400);
            match body {
                JsonValue::Object(fields) => {
                    assert_eq!(fields.len(), 1);
                    assert_eq!(fields[0].0, "error");
                    assert!(matches!(fields[0].1, JsonValue::Str(ref s) if s == "bad"));
                }
                other => panic!("unexpected body {other:?}"),
            }
            assert!(!retryable);
        }
        other => panic!("unexpected {other:?}"),
    }
    assert!(matches!(provider_error(429, None, "p"), GatewayError::Provider { retryable: true, body: JsonValue::Null, .. }));
    assert!(matches!(provider_error(599, None, "p"), GatewayError::Provider { retryable: true, .. }));
    assert!(matches!(provider_error(600, None, "p"), GatewayError::Provider { retryable: false, .. }));
}

#[test]
fn embedding_response_must_be_json() {
    assert!(matches!(embedding_response_json(Some("application/json"), b"[1]"), Ok(JsonValue::Array(ref v)) if v.len() == 1));
    match embedding_response_json(Some("application/octet-stream"), b"\x00\x01") {
        Err(GatewayError::Transform(m)) => assert_eq!(m, "embedding response must be JSON"),
        other => panic!("unexpected {other:?}"),
    }
    match embedding_response_json(Some("application/json"), b"nope") {
        Err(GatewayError::Transform(m)) => assert!(m.contains("expected ident")),
        other => panic!("unexpected {other:?}"),
    }
}

#[test]
fn hub_chat_request_builds_the_provider_request() {
    let instance = mistral(ProviderAuth::ApiKey("k".into()), None, vec![]);
    let mut body = obj(vec![("model", JsonValue::Str("m".into()))]);

    let request = hub_chat_request(&instance, "m", &mut body, true).unwrap();

    assert_eq!(request.url, "https://api.mistral.ai/v1/chat/completions");
    assert_eq!(request.headers, vec![pair("authorization", "Bearer k"), pair("content-type", "application/json")]);
    assert!(request.stream);
    assert_eq!(request.timeout_secs, None);
}

#[test]
fn hub_chat_request_passes_on_missing_key() {
    let instance = mistral(ProviderAuth::Unset, None, vec![]);
    let mut body = obj(vec![]);

    assert!(matches!(hub_chat_request(&instance, "m", &mut body, false), Err(GatewayError::Validation(_))));
}

#[test]
fn embed_request_uses_the_embeddings_path() {
    let instance = ProviderInstance {
        def: FireworksAi,
        auth: ProviderAuth::ApiKey("k".into()),
        base_url_override: None,
        custom_headers: vec![],
    };
    let mut body = obj(vec![("model", JsonValue::Str("e".into())), ("input", JsonValue::Str("hi".into()))]);

    let request = embed_request(&instance, "e", &mut body).unwrap();

    assert!(request.url.ends_with("/v1/embeddings"));
    assert!(!request.stream);
    assert_eq!(request.timeout_secs, Some(30));
}

#[test]
fn native_chat_request_joins_the_native_endpoint() {
    let instance = mistral(ProviderAuth::ApiKey("k".into()), None, vec![pair("x-trace-id", "t")]);

    let request = native_chat_request(&instance, "/v1/responses", &JsonValue::Null, false).unwrap();

    assert_eq!(request.url, "https://api.mistral.ai/v1/responses");
    assert_eq!(
        request.headers,
        vec![pair("authorization", "Bearer k"), pair("x-trace-id", "t"), pair("content-type", "application/json")]
    );
    assert_eq!(request.body, "null");
}
