use aisix::auth::GatewayError;
use aisix::json::JsonValue;
use aisix::provider::{
    endpoint_url, ensure_chat_stream_reader_supported, join_url, parse_http_response_body, stream_data_payload,
    CompatQuirks, HttpResponseBody, ProviderSemanticConventions, StreamReaderKind,
};
use aisix::providers::{ChatTransform, Mistral, OpenRouter, ProviderMeta};

fn obj(fields: Vec<(&str, JsonValue)>) -> JsonValue {
    JsonValue::Object(fields.into_iter().map(|(k, v)| (k.to_string(), v)).collect())
}

fn num(t: &str) -> JsonValue {
    JsonValue::Number(t.to_string())
}

fn get<'a>(v: &'a JsonValue, key: &str) -> Option<&'a JsonValue> {
    match v {
        JsonValue::Object(fields) => fields.iter().find(|(k, _)| k == key).map(|(_, x)| x),
        _ => None,
    }
}

/// A provider with the chat path `/chat/completions`.
fn dummy_provider() -> OpenRouter {
    OpenRouter
}

/// A provider with the default chat path `/v1/chat/completions`.
fn versioned_dummy_provider() -> Mistral {
    Mistral
}

#[test]
fn apply_to_request_removes_and_renames_fields() {
    let mut quirks = CompatQuirks::none();
    quirks.unsupported_params = vec!["seed".to_string()];
    quirks.param_renames = vec![("max_tokens".to_string(), "max_completion_tokens".to_string())];
    let mut body = obj(vec![("seed", num("7")), ("max_tokens", num("256")), ("temperature", num("0.2"))]);

    quirks.apply_to_request(&mut body);

    assert!(get(&body, "seed").is_none());
    assert!(matches!(get(&body, "max_completion_tokens"), Some(JsonValue::Number(n)) if n == "256"));
    assert!(matches!(get(&body, "temperature"), Some(JsonValue::Number(n)) if n == "0.2"));
}

#[test]
fn apply_to_request_preserves_explicit_destination_value() {
    let mut quirks = CompatQuirks::none();
    quirks.param_renames = vec![("max_tokens".to_string(), "max_completion_tokens".to_string())];
    let mut body = obj(vec![("max_tokens", num("256")), ("max_completion_tokens", num("128"))]);

    quirks.apply_to_request(&mut body);

    assert!(get(&body, "max_tokens").is_none());
    assert!(matches!(get(&body, "max_completion_tokens"), Some(JsonValue::Number(n)) if n == "128"));
}

#[test]
fn apply_to_request_injects_stream_usage_when_enabled() {
    let mut quirks = CompatQuirks::none();
    quirks.inject_stream_usage = true;
    let mut body = obj(vec![("stream", JsonValue::Bool(true))]);

    quirks.apply_to_request(&mut body);

    let options = get(&body, "stream_options").unwrap();
    assert!(matches!(get(options, "include_usage"), Some(JsonValue::Bool(true))));
}

#[test]
fn provider_meta_uses_name_based_default_semantic_conventions() {
    let provider = Mistral;

    assert_eq!(
        provider.semantic_conventions(),
        ProviderSemanticConventions { gen_ai_provider_name: "mistral", llm_system: "mistral", llm_provider: None }
    );
}

#[test]
fn apply_to_request_skips_stream_usage_for_non_streaming_requests() {
    let mut quirks = CompatQuirks::none();
    quirks.inject_stream_usage = true;
    let mut body = obj(vec![("stream", JsonValue::Bool(false))]);

    quirks.apply_to_request(&mut body);

    assert!(get(&body, "stream_options").is_none());
}

#[test]
fn build_url_avoids_duplicate_version_prefixes() {
    let provider = versioned_dummy_provider();

    assert_eq!(provider.build_url("https://example.com/v1", "ignored"), "https://example.com/v1/chat/completions");
}

#[test]
fn build_url_appends_chat_path_without_overlap() {
    let provider = dummy_provider();

    assert_eq!(provider.build_url("https://example.com", "ignored"), "https://example.com/chat/completions");
}

#[test]
fn build_url_handles_trailing_slash_in_base_url() {
    let provider = dummy_provider();

    assert_eq!(provider.build_url("https://example.com/v1/", "ignored"), "https://example.com/v1/chat/completions");
}

#[test]
fn build_url_falls_back_for_invalid_urls() {
    let provider = dummy_provider();

    assert_eq!(provider.build_url("not-a-valid-url", "ignored"), "not-a-valid-url/chat/completions");
}

#[test]
fn transform_stream_chunk_ignores_sse_control_lines() {
    for line in [": keep-alive", "event: message", "id: 123", "retry: 5000", "not-an-sse-payload"] {
        assert!(stream_data_payload(line, "data: [DONE]").is_none(), "{line}");
    }
}

#[test]
fn transform_stream_chunk_ignores_done_signals() {
    assert!(stream_data_payload("data: [DONE]", "data: [DONE]").is_none());
    assert!(stream_data_payload("[DONE]", "data: [DONE]").is_none());
}

#[test]
fn transform_stream_chunk_parses_only_data_payload() {
    let payload = "{\"id\":\"chatcmpl-123\",\"object\":\"chat.completion.chunk\",\"created\":1677652288,\"model\":\"gpt-4\",\"choices\":[{\"index\":0,\"delta\":{\"content\":\"Hello\"}}]}";
    let line = format!("data: {}", payload);

    let extracted = stream_data_payload(&line, "data: [DONE]").unwrap();

    assert_eq!(extracted, payload);
    let chunk: serde_json::Value = serde_json::from_str(&extracted).unwrap();
    assert_eq!(chunk["id"], "chatcmpl-123");
    assert_eq!(chunk["choices"][0]["delta"]["content"], "Hello");
}

#[test]
fn stream_payload_ignores_blank_and_done_payloads() {
    assert!(stream_data_payload("   ", "data: [DONE]").is_none());
    assert!(stream_data_payload("data:", "data: [DONE]").is_none());
    assert!(stream_data_payload("data:    [DONE]", "data: [DONE]").is_none());
    assert_eq!(stream_data_payload("  data:{\"a\":1}  ", "data: [DONE]").unwrap(), "{\"a\":1}");
}

#[test]
fn stream_chunk_payload_uses_provider_done_signal() {
    let provider = aisix::providers::Mistral;
    assert!(provider.stream_chunk_payload("data: [DONE]").is_none());
    assert_eq!(provider.stream_chunk_payload("data: {}").unwrap(), "{}");
}

#[test]
fn quirks_rename_then_remove_order() {
    let mut quirks = CompatQuirks::none();
    quirks.unsupported_params = vec!["a".to_string()];
    quirks.param_renames = vec![("a".to_string(), "b".to_string()), ("c".to_string(), "d".to_string())];
    let mut body = obj(vec![("a", num("1")), ("c", num("2"))]);
    quirks.apply_to_request(&mut body);
    assert!(get(&body, "a").is_none());
    assert!(get(&body, "b").is_none());
    assert!(get(&body, "c").is_none());
    assert!(matches!(get(&body, "d"), Some(JsonValue::Number(n)) if n == "2"));
}

#[test]
fn quirks_replace_non_object_stream_options() {
    let mut quirks = CompatQuirks::none();
    quirks.inject_stream_usage = true;
    let mut body = obj(vec![("stream", JsonValue::Bool(true)), ("stream_options", num("3"))]);
    quirks.apply_to_request(&mut body);
    let options = get(&body, "stream_options").unwrap();
    assert!(matches!(options, JsonValue::Object(fs) if fs.len() == 1));
    assert!(matches!(get(options, "include_usage"), Some(JsonValue::Bool(true))));
}

#[test]
fn quirks_keep_existing_stream_options() {
    let mut quirks = CompatQuirks::none();
    quirks.inject_stream_usage = true;
    let mut body = obj(vec![
        ("stream", JsonValue::Bool(true)),
        ("stream_options", obj(vec![("include_usage", JsonValue::Bool(false)), ("x", num("1"))])),
    ]);
    quirks.apply_to_request(&mut body);
    let options = get(&body, "stream_options").unwrap();
    assert!(matches!(get(options, "include_usage"), Some(JsonValue::Bool(true))));
    assert!(matches!(get(options, "x"), Some(JsonValue::Number(n)) if n == "1"));
}

#[test]
fn quirks_leave_non_objects_alone() {
    let mut quirks = CompatQuirks::none();
    quirks.unsupported_params = vec!["a".to_string()];
    let mut body = JsonValue::Array(vec![num("1")]);
    quirks.apply_to_request(&mut body);
    assert!(matches!(body, JsonValue::Array(items) if items.len() == 1));
}

#[test]
fn join_url_inserts_single_slash() {
    assert_eq!(join_url("https://a.example/", "v1/x"), "https://a.example/v1/x");
    assert_eq!(join_url("https://a.example//", "/v1/x"), "https://a.example/v1/x");
    assert_eq!(join_url("https://a.example", "/v1/x"), "https://a.example/v1/x");
}

#[test]
fn endpoint_url_keeps_query_and_skips_overlap() {
    assert_eq!(endpoint_url("https://example.com/api/v1?x=1", "/v1/embeddings"), "https://example.com/api/v1/embeddings?x=1");
    assert_eq!(endpoint_url("https://example.com/a/b", "/b/c"), "https://example.com/a/b/c");
}

#[test]
fn stream_reader_kind_json_array_is_refused() {
    assert!(ensure_chat_stream_reader_supported(StreamReaderKind::Sse).is_ok());
    assert!(ensure_chat_stream_reader_supported(StreamReaderKind::AwsEventStream).is_ok());
    let e = ensure_chat_stream_reader_supported(StreamReaderKind::JsonArrayStream).unwrap_err();
    assert!(matches!(e, GatewayError::Validation(m) if m == "stream reader kind JsonArrayStream is not implemented yet"));
}

#[test]
fn response_body_is_json_or_binary_by_content_type() {
    assert!(matches!(
        parse_http_response_body(Some("application/json"), b"{\"a\":1}"),
        Ok(HttpResponseBody::Json(JsonValue::Object(_)))
    ));
    assert!(matches!(parse_http_response_body(Some("application/json"), b"oops"), Err(GatewayError::Transform(_))));
    assert!(matches!(parse_http_response_body(Some("text/plain"), b"oops"), Ok(HttpResponseBody::Binary)));
    assert!(matches!(parse_http_response_body(None, b"[1]"), Ok(HttpResponseBody::Json(JsonValue::Array(_)))));
}
