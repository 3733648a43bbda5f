use aisix::auth::GatewayError;
use aisix::chat::{
    extract_chat_usage_from_response, ChatCompletionRequest, ChatCompletionResponse, ChatCompletionUsage, ChatMessage,
    ChatStreamState, MessageContent, PromptTokensDetails, ToolCallAccumulator, Usage,
};
use aisix::responses::{BridgeContext, OpenAIChatFormat};

fn request(model: &str, stream: Option<bool>) -> ChatCompletionRequest {
    ChatCompletionRequest {
        model: model.to_string(),
        messages: vec![ChatMessage {
            role: "user".to_string(),
            content: Some(MessageContent::Text("Hello".to_string())),
            name: None,
            tool_calls: None,
            tool_call_id: None,
        }],
        n: None,
        stop: None,
        max_tokens: None,
        max_completion_tokens: None,
        logprobs: None,
        top_logprobs: None,
        response_format: None,
        stream,
        include_usage: None,
        temperature: None,
        top_p: None,
        tools: None,
        tool_choice: None,
        parallel_tool_calls: None,
    }
}

fn accumulator(arguments: &str) -> ToolCallAccumulator {
    let mut a = ToolCallAccumulator::empty();
    a.arguments = arguments.to_string();
    a
}

#[test]
fn is_stream_and_extract_model_use_request_fields() {
    let streaming_request = request("gpt-4o-mini", Some(true));
    let non_streaming_request = request("gpt-4.1", None);

    assert!(OpenAIChatFormat::is_stream(&streaming_request));
    assert!(!OpenAIChatFormat::is_stream(&non_streaming_request));
    assert_eq!(OpenAIChatFormat::extract_model(&streaming_request), "gpt-4o-mini");
}

#[test]
fn native_stream_path_returns_native_not_supported_error() {
    let error = OpenAIChatFormat::transform_native_stream_chunk("dummy", "data: {}").unwrap_err();

    assert!(matches!(error, GatewayError::NativeNotSupported { provider } if provider == "dummy"));
}

#[test]
fn request_round_trips_through_hub_identity() {
    let (hub, ctx) = OpenAIChatFormat::to_hub(request("gpt-4", Some(true)));
    assert_eq!(hub.model, "gpt-4");
    assert_eq!(hub.stream, Some(true));
    assert_eq!(hub.messages.len(), 1);
    assert!(ctx.openai_responses_extras.is_none());
    assert_eq!(OpenAIChatFormat::name(), "openai_chat");
}

#[test]
fn stream_state_separates_tool_call_accumulators_by_choice_and_index() {
    let mut state = ChatStreamState::new();
    state.insert_accumulator((0, 0), accumulator("first"));
    state.insert_accumulator((1, 0), accumulator("second"));

    assert_eq!(state.accumulator_count(), 2);
    assert_eq!(state.get_accumulator((0, 0)).unwrap().arguments, "first");
    assert_eq!(state.get_accumulator((1, 0)).unwrap().arguments, "second");
}

#[test]
fn usage_merge_replaces_reported_counts_only() {
    let mut u = Usage::empty();
    let mut reported = Usage::empty();
    reported.input_tokens = Some(3);
    reported.cache_read_input_tokens = Some(2);
    u.merge(&reported);
    let mut later = Usage::empty();
    later.output_tokens = Some(5);
    u.merge(&later);
    assert_eq!(u.input_tokens, Some(3));
    assert_eq!(u.output_tokens, Some(5));
    assert_eq!(u.cache_read_input_tokens, Some(2));
    assert_eq!(u.resolved_total_tokens(), Some(8));
    u.total_tokens = Some(10);
    assert_eq!(u.resolved_total_tokens(), Some(10));
    let mut huge = Usage::empty();
    huge.input_tokens = Some(u64::MAX);
    huge.output_tokens = Some(1);
    assert_eq!(huge.resolved_total_tokens(), None);
}

#[test]
fn chat_usage_is_extracted_with_details() {
    let response = ChatCompletionResponse {
        id: "chatcmpl".to_string(),
        created: 1,
        model: "m".to_string(),
        choices: Vec::new(),
        usage: Some(ChatCompletionUsage {
            prompt_tokens: 7,
            completion_tokens: 9,
            total_tokens: 16,
            prompt_tokens_details: Some(PromptTokensDetails { cached_tokens: Some(2), audio_tokens: None }),
            completion_tokens_details: None,
        }),
    };
    let usage = extract_chat_usage_from_response(&response).unwrap();
    assert_eq!(usage.input_tokens, Some(7));
    assert_eq!(usage.output_tokens, Some(9));
    assert_eq!(usage.total_tokens, Some(16));
    assert_eq!(usage.cache_read_input_tokens, Some(2));
    assert_eq!(usage.input_audio_tokens, None);

    let empty = ChatCompletionResponse { id: String::new(), created: 0, model: String::new(), choices: Vec::new(), usage: None };
    assert!(extract_chat_usage_from_response(&empty).is_none());
    let _ = OpenAIChatFormat::from_hub(empty, &BridgeContext::empty());
}
