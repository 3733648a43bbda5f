use aisix::auth::GatewayError;
use aisix::chat::{
    ChatChoice, ChatCompletionChunk, ChatCompletionResponse, ChatCompletionUsage, ChatMessage, ChunkChoice, ChunkDelta,
    ChunkToolCall, MessageContent, OpenAIResponsesNativeStreamState, ToolCall,
};
use aisix::json::JsonValue;
use aisix::responses::{
    responses_usage_to_common, update_native_usage_from_event, BridgeContext, OpenAIResponsesExtras,
    ResponseTextConfig, ResponsesApiFormat, ResponsesApiRequest, ResponsesApiResponse, ResponsesApiStreamEvent,
    ResponsesBridgeState, ResponsesInput, ResponsesOutputItem, ResponsesTool, ResponsesUsage, Truncation,
};

fn obj(fields: Vec<(&str, JsonValue)>) -> JsonValue {
    JsonValue::Object(fields.into_iter().map(|(k, v)| (k.to_string(), v)).collect())
}

fn text(t: &str) -> JsonValue {
    JsonValue::Str(t.to_string())
}

fn get<'a>(v: &'a JsonValue, key: &str) -> Option<&'a JsonValue> {
    match v {
        JsonValue::Object(fields) => fields.iter().find(|(k, _)| k == key).map(|(_, x)| x),
        _ => None,
    }
}

fn base_request(model: &str, input: &str) -> ResponsesApiRequest {
    ResponsesApiRequest {
        model: model.to_string(),
        input: ResponsesInput::Text(input.to_string()),
        instructions: None,
        max_output_tokens: None,
        temperature: None,
        top_p: None,
        tools: None,
        tool_choice: None,
        parallel_tool_calls: None,
        stream: None,
        store: None,
        metadata: None,
        previous_response_id: None,
        background: None,
        context_management: None,
        conversation: None,
        includes: None,
        max_tool_calls: None,
        prompt: None,
        prompt_cache_key: None,
        prompt_cache_retention: None,
        reasoning: None,
        safety_identifier: None,
        service_tier: None,
        stream_options: None,
        text: None,
        top_logprobs: None,
        truncation: None,
    }
}

fn empty_extras() -> OpenAIResponsesExtras {
    OpenAIResponsesExtras {
        previous_response_id: None,
        instructions: None,
        store: None,
        metadata: None,
        background: None,
        context_management: None,
        conversation: None,
        includes: None,
        max_tool_calls: None,
        prompt: None,
        prompt_cache_key: None,
        prompt_cache_retention: None,
        reasoning: None,
        safety_identifier: None,
        service_tier: None,
        stream_options: None,
        text: None,
        top_logprobs: None,
        truncation: None,
    }
}

fn chunk(choices: Vec<ChunkChoice>, usage: Option<ChatCompletionUsage>) -> ChatCompletionChunk {
    ChatCompletionChunk {
        id: "chatcmpl_123".to_string(),
        created: 1700000000,
        model: "gpt-4.1".to_string(),
        choices,
        usage,
    }
}

fn choice(role: Option<&str>, content: Option<&str>, tool_calls: Option<Vec<ChunkToolCall>>, finish: Option<&str>) -> ChunkChoice {
    ChunkChoice {
        index: 0,
        delta: ChunkDelta {
            role: role.map(|r| r.to_string()),
            content: content.map(|c| c.to_string()),
            tool_calls,
        },
        finish_reason: finish.map(|f| f.to_string()),
    }
}

fn usage(p: u64, c: u64, t: u64) -> ChatCompletionUsage {
    ChatCompletionUsage {
        prompt_tokens: p,
        completion_tokens: c,
        total_tokens: t,
        prompt_tokens_details: None,
        completion_tokens_details: None,
    }
}

#[test]
fn to_hub_maps_text_request_and_preserves_responses_extras() {
    let mut request = base_request("gpt-4.1", "Hello");
    request.instructions = Some("Be concise".to_string());
    request.max_output_tokens = Some(128);
    request.temperature = Some("0.2".to_string());
    request.top_p = Some("0.9".to_string());
    request.tools = Some(vec![ResponsesTool::Function {
        name: "get_weather".to_string(),
        description: Some("Get weather".to_string()),
        parameters: Some(obj(vec![("type", text("object"))])),
        strict: None,
    }]);
    request.tool_choice = Some(obj(vec![("type", text("function")), ("name", text("get_weather"))]));
    request.stream = Some(true);
    request.store = Some(true);
    request.metadata = Some(obj(vec![("request_id", text("req_1"))]));
    request.previous_response_id = Some("resp_prev".to_string());
    request.top_logprobs = Some(3);
    request.text = Some(ResponseTextConfig { format: Some(obj(vec![("type", text("json_object"))])) });

    let (hub, ctx) = ResponsesApiFormat::to_hub(&request).unwrap();

    assert_eq!(hub.model, "gpt-4.1");
    assert_eq!(hub.messages.len(), 2);
    assert_eq!(hub.messages[0].role, "system");
    assert_eq!(hub.messages[1].role, "user");
    assert_eq!(hub.max_completion_tokens, Some(128));
    assert_eq!(hub.temperature.as_deref(), Some("0.2"));
    assert_eq!(hub.top_p.as_deref(), Some("0.9"));
    assert_eq!(hub.logprobs, Some(true));
    assert_eq!(hub.top_logprobs, Some(3));
    assert_eq!(hub.stream, Some(true));
    assert_eq!(hub.include_usage, Some(true));
    assert_eq!(hub.tools.as_ref().unwrap().len(), 1);
    assert_eq!(hub.response_format.as_ref().unwrap().format_type, "json_object");

    let extras = ctx.openai_responses_extras.as_ref().unwrap();
    assert_eq!(extras.previous_response_id.as_deref(), Some("resp_prev"));
    assert_eq!(extras.store, Some(true));
    assert!(matches!(get(extras.metadata.as_ref().unwrap(), "request_id"), Some(JsonValue::Str(s)) if s == "req_1"));
}

#[test]
fn to_hub_rejects_builtin_tools_and_truncation_auto() {
    let mut built_in_tools_request = base_request("gpt-4.1", "Hello");
    built_in_tools_request.tools = Some(vec![ResponsesTool::BuiltIn { tool_type: "web_search_preview".to_string() }]);
    let mut truncation_request = base_request("gpt-4.1", "Hello");
    truncation_request.truncation = Some(Truncation::Auto);

    assert!(matches!(
        ResponsesApiFormat::to_hub(&built_in_tools_request),
        Err(GatewayError::Bridge(message)) if message.contains("built-in tools")
    ));
    assert!(matches!(
        ResponsesApiFormat::to_hub(&truncation_request),
        Err(GatewayError::Bridge(message)) if message.contains("truncation=auto")
    ));
}

#[test]
fn from_hub_maps_message_and_tool_calls_to_responses_response() {
    let response = ChatCompletionResponse {
        id: "chatcmpl_123".to_string(),
        created: 1700000000,
        model: "gpt-4.1".to_string(),
        choices: vec![ChatChoice {
            index: 0,
            message: ChatMessage {
                role: "assistant".to_string(),
                content: Some(MessageContent::Text("Hello".to_string())),
                name: None,
                tool_calls: Some(vec![ToolCall {
                    id: "call_1".to_string(),
                    kind: "function".to_string(),
                    name: "get_weather".to_string(),
                    arguments: "{\"city\":\"SF\"}".to_string(),
                }]),
                tool_call_id: None,
            },
            finish_reason: Some("tool_calls".to_string()),
        }],
        usage: Some(usage(7, 9, 16)),
    };
    let mut extras = empty_extras();
    extras.previous_response_id = Some("resp_prev".to_string());
    extras.metadata = Some(obj(vec![("trace", text("abc"))]));
    let ctx = BridgeContext { openai_responses_extras: Some(extras) };

    let bridged = ResponsesApiFormat::from_hub(&response, &ctx).unwrap();

    assert_eq!(bridged.id, "chatcmpl_123");
    assert_eq!(bridged.object, "response");
    assert_eq!(bridged.status, "completed");
    assert_eq!(bridged.previous_response_id.as_deref(), Some("resp_prev"));
    assert!(matches!(get(bridged.metadata.as_ref().unwrap(), "trace"), Some(JsonValue::Str(s)) if s == "abc"));
    assert_eq!(bridged.output.len(), 2);
    assert!(matches!(&bridged.output[0], ResponsesOutputItem::Message { role, .. } if role == "assistant"));
    assert!(matches!(&bridged.output[1], ResponsesOutputItem::FunctionCall { name, .. } if name == "get_weather"));
    assert_eq!(bridged.usage.total_tokens, 16);
    assert_eq!(responses_usage_to_common(&bridged.usage).total_tokens, Some(16));
}

#[test]
fn from_hub_stream_emits_text_delta_and_completion_events() {
    let first_chunk = chunk(vec![choice(Some("assistant"), Some("Hel"), None, None)], None);
    let second_chunk = chunk(vec![choice(None, Some("lo"), None, Some("stop"))], Some(usage(7, 9, 16)));

    let mut state = ResponsesBridgeState::new();
    let ctx = BridgeContext::empty();

    let start_events = ResponsesApiFormat::from_hub_stream(&first_chunk, &mut state, &ctx).unwrap();
    let next_events = ResponsesApiFormat::from_hub_stream(&second_chunk, &mut state, &ctx).unwrap();
    let end_events = ResponsesApiFormat::stream_end_events(&state, &ctx);

    assert_eq!(start_events.len(), 5);
    assert!(matches!(start_events[0], ResponsesApiStreamEvent::ResponseCreated { .. }));
    assert!(matches!(start_events[1], ResponsesApiStreamEvent::ResponseInProgress { .. }));
    assert!(matches!(start_events[2], ResponsesApiStreamEvent::OutputItemAdded { .. }));
    assert!(matches!(start_events[3], ResponsesApiStreamEvent::ContentPartAdded { .. }));
    assert!(matches!(&start_events[4], ResponsesApiStreamEvent::OutputTextDelta { delta, .. } if delta == "Hel"));

    assert_eq!(next_events.len(), 1);
    assert!(matches!(&next_events[0], ResponsesApiStreamEvent::OutputTextDelta { delta, .. } if delta == "lo"));

    assert_eq!(end_events.len(), 4);
    assert!(matches!(end_events[0], ResponsesApiStreamEvent::OutputTextDone { .. }));
    assert!(matches!(end_events[1], ResponsesApiStreamEvent::ContentPartDone { .. }));
    assert!(matches!(end_events[2], ResponsesApiStreamEvent::OutputItemDone { .. }));
    if let ResponsesApiStreamEvent::ResponseCompleted { response } = &end_events[3] {
        assert_eq!(response.status, "completed");
        assert_eq!(response.usage.total_tokens, 16);
        assert_eq!(response.output.len(), 1);
    } else {
        panic!("expected response.completed event");
    }
}

#[test]
fn stream_bridge_keeps_stable_output_indexes_when_text_follows_tool_call() {
    let first_chunk = chunk(
        vec![choice(
            None,
            None,
            Some(vec![ChunkToolCall {
                index: 0,
                id: Some("call_1".to_string()),
                kind: Some("function".to_string()),
                name: Some("get_weather".to_string()),
                arguments: Some("{\"city\":\"S".to_string()),
            }]),
            None,
        )],
        None,
    );
    let second_chunk = chunk(vec![choice(None, Some("Hello"), None, None)], None);
    let third_chunk = chunk(
        vec![choice(
            None,
            None,
            Some(vec![ChunkToolCall { index: 0, id: None, kind: None, name: None, arguments: Some("F\"}".to_string()) }]),
            Some("tool_calls"),
        )],
        None,
    );

    let mut state = ResponsesBridgeState::new();
    let ctx = BridgeContext::empty();

    let start_events = ResponsesApiFormat::from_hub_stream(&first_chunk, &mut state, &ctx).unwrap();
    let text_events = ResponsesApiFormat::from_hub_stream(&second_chunk, &mut state, &ctx).unwrap();
    let tool_events = ResponsesApiFormat::from_hub_stream(&third_chunk, &mut state, &ctx).unwrap();
    let end_events = ResponsesApiFormat::stream_end_events(&state, &ctx);

    assert!(matches!(&start_events[2], ResponsesApiStreamEvent::OutputItemAdded { output_index, .. } if *output_index == 0));
    assert!(matches!(
        &start_events[3],
        ResponsesApiStreamEvent::FunctionCallArgumentsDelta { output_index, delta }
            if *output_index == 0 && delta == "{\"city\":\"S"
    ));
    assert!(matches!(&text_events[0], ResponsesApiStreamEvent::OutputItemAdded { output_index, .. } if *output_index == 1));
    assert!(matches!(&text_events[1], ResponsesApiStreamEvent::ContentPartAdded { output_index, .. } if *output_index == 1));
    assert!(matches!(
        &text_events[2],
        ResponsesApiStreamEvent::OutputTextDelta { output_index, delta, .. } if *output_index == 1 && delta == "Hello"
    ));
    assert!(matches!(
        &tool_events[0],
        ResponsesApiStreamEvent::FunctionCallArgumentsDelta { output_index, delta } if *output_index == 0 && delta == "F\"}"
    ));
    assert!(end_events.iter().any(|event| matches!(
        event,
        ResponsesApiStreamEvent::FunctionCallArgumentsDone { output_index, arguments }
            if *output_index == 0 && arguments == "{\"city\":\"SF\"}"
    )));
    let completed = end_events
        .iter()
        .find_map(|event| match event {
            ResponsesApiStreamEvent::ResponseCompleted { response } => Some(response),
            _ => None,
        })
        .expect("expected response.completed event");
    assert!(matches!(completed.output[0], ResponsesOutputItem::FunctionCall { .. }));
    assert!(matches!(completed.output[1], ResponsesOutputItem::Message { .. }));
}

#[test]
fn native_stream_events_report_usage() {
    let response = ResponsesApiResponse {
        id: "resp_123".to_string(),
        object: "response".to_string(),
        created_at: 1700000000,
        model: "gpt-4.1".to_string(),
        output: Vec::new(),
        status: "completed".to_string(),
        usage: ResponsesUsage { input_tokens: 7, output_tokens: 9, total_tokens: 16 },
        metadata: None,
        previous_response_id: None,
    };
    let events = vec![ResponsesApiStreamEvent::ResponseCompleted { response }];
    let mut native_state = OpenAIResponsesNativeStreamState::new();
    ResponsesApiFormat::record_native_events(&events, &mut native_state);
    assert_eq!(ResponsesApiFormat::native_usage(&native_state).total_tokens, Some(16));

    let mut other = OpenAIResponsesNativeStreamState::new();
    update_native_usage_from_event(
        &ResponsesApiStreamEvent::OutputTextDelta { output_index: 0, content_index: 0, delta: "x".to_string() },
        &mut other,
    );
    assert_eq!(other.usage.total_tokens, None);
}

#[test]
fn stream_with_two_choices_is_refused() {
    let two = chunk(vec![choice(None, Some("a"), None, None), choice(None, Some("b"), None, None)], None);
    let mut state = ResponsesBridgeState::new();
    assert!(matches!(
        ResponsesApiFormat::from_hub_stream(&two, &mut state, &BridgeContext::empty()),
        Err(GatewayError::Bridge(_))
    ));
    assert!(ResponsesApiFormat::stream_end_events(&state, &BridgeContext::empty()).is_empty());
}
