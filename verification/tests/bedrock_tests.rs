use aisix::bedrock::{
    bedrock_event_to_openai, bedrock_to_openai_response, bedrock_usage_to_openai_usage, map_finish_reason,
    openai_to_bedrock_request, BedrockContentBlock, BedrockContentBlockDelta, BedrockContentBlockDeltaEvent,
    BedrockContentBlockStart, BedrockContentBlockStartEvent, BedrockConverseOutput, BedrockConverseResponse,
    BedrockConverseStreamMetadataEvent, BedrockMessage, BedrockMessageStartEvent, BedrockMessageStopEvent, BedrockRole,
    BedrockStreamEvent, BedrockToolChoice, BedrockToolUseBlock, BedrockToolUseBlockDelta, BedrockToolUseBlockStart,
    BedrockUsage,
};
use aisix::chat::{
    ChatCompletionRequest, ChatMessage, ChatStreamState, FunctionTool, MessageContent, ToolCall, ToolChoice,
};
use aisix::json::JsonValue;

fn message(role: &str, content: Option<&str>) -> ChatMessage {
    ChatMessage {
        role: role.to_string(),
        content: content.map(|c| MessageContent::Text(c.to_string())),
        name: None,
        tool_calls: None,
        tool_call_id: None,
    }
}

fn request(model: &str, messages: Vec<ChatMessage>) -> ChatCompletionRequest {
    ChatCompletionRequest {
        model: model.to_string(),
        messages,
        n: None,
        stop: None,
        max_tokens: None,
        max_completion_tokens: None,
        logprobs: None,
        top_logprobs: None,
        response_format: None,
        stream: None,
        include_usage: None,
        temperature: None,
        top_p: None,
        tools: None,
        tool_choice: None,
        parallel_tool_calls: None,
    }
}

fn obj(fields: Vec<(&str, JsonValue)>) -> JsonValue {
    JsonValue::Object(fields.into_iter().map(|(k, v)| (k.to_string(), v)).collect())
}

fn state_with_model() -> ChatStreamState {
    let mut state = ChatStreamState::new();
    state.response_model = Some("bedrock/test-model".to_string());
    state
}

#[test]
fn openai_to_bedrock_request_maps_system_tools_and_tool_results() {
    let mut assistant = message("assistant", None);
    assistant.tool_calls = Some(vec![ToolCall {
        id: "toolu_123".to_string(),
        kind: "function".to_string(),
        name: "get_weather".to_string(),
        arguments: "{\"city\":\"Shanghai\"}".to_string(),
    }]);
    let mut tool = message("tool", Some("{\"temperature\":24}"));
    tool.tool_call_id = Some("toolu_123".to_string());
    let mut req = request(
        "meta.llama3-2-90b-instruct-v1:0",
        vec![message("system", Some("You are helpful.")), message("user", Some("What is the weather?")), assistant, tool],
    );
    req.tools = Some(vec![FunctionTool {
        tool_type: "function".to_string(),
        name: "get_weather".to_string(),
        description: Some("Get weather".to_string()),
        parameters: Some(obj(vec![
            ("type", JsonValue::Str("object".to_string())),
            ("properties", obj(vec![("city", obj(vec![("type", JsonValue::Str("string".to_string()))]))])),
        ])),
        strict: None,
    }]);
    req.tool_choice = Some(ToolChoice::Mode("required".to_string()));
    req.temperature = Some("0.2".to_string());
    req.max_completion_tokens = Some(128);

    let body = openai_to_bedrock_request(&req).unwrap();

    assert_eq!(body.system.as_ref().unwrap()[0].text, "You are helpful.");
    assert_eq!(body.messages.len(), 3);
    assert!(matches!(body.tool_config.as_ref().unwrap().tool_choice, Some(BedrockToolChoice::Any { .. })));
    assert_eq!(body.inference_config.as_ref().unwrap().max_tokens, Some(128));
}

#[test]
fn bedrock_to_openai_response_maps_tool_use_and_usage() {
    let req = request("meta.llama3-2-90b-instruct-v1:0", vec![message("user", Some("hi"))]);
    let response = BedrockConverseResponse {
        output: BedrockConverseOutput {
            message: BedrockMessage {
                role: BedrockRole::Assistant,
                content: vec![
                    BedrockContentBlock::Text { text: "Need a tool.".to_string() },
                    BedrockContentBlock::ToolUse {
                        tool_use: BedrockToolUseBlock {
                            tool_use_id: "toolu_123".to_string(),
                            name: "get_weather".to_string(),
                            input: obj(vec![("city", JsonValue::Str("Shanghai".to_string()))]),
                        },
                    },
                ],
            },
        },
        stop_reason: Some("tool_use".to_string()),
        usage: Some(BedrockUsage { input_tokens: 3, output_tokens: 5, total_tokens: 8 }),
    };

    let mapped = bedrock_to_openai_response(&req, response).unwrap();

    assert_eq!(mapped.model, "meta.llama3-2-90b-instruct-v1:0");
    assert!(mapped.id.starts_with("bedrock-"));
    assert_eq!(mapped.choices[0].finish_reason.as_deref(), Some("tool_calls"));
    assert!(matches!(
        mapped.choices[0].message.content.as_ref(),
        Some(MessageContent::Text(text)) if text == "Need a tool."
    ));
    assert_eq!(mapped.choices[0].message.tool_calls.as_ref().unwrap()[0].arguments, "{\"city\":\"Shanghai\"}");
    assert_eq!(mapped.usage.as_ref().unwrap().total_tokens, 8);
}

#[test]
fn parse_bedrock_stream_to_openai_emits_role_text_finish_and_usage() {
    let mut state = state_with_model();

    let message_start = bedrock_event_to_openai(
        BedrockStreamEvent::MessageStart(BedrockMessageStartEvent { role: BedrockRole::Assistant }),
        &mut state,
    )
    .unwrap();
    let text_delta = bedrock_event_to_openai(
        BedrockStreamEvent::ContentBlockDelta(BedrockContentBlockDeltaEvent {
            content_block_index: 0,
            delta: BedrockContentBlockDelta { text: Some("hello from stream".to_string()), tool_use: None },
        }),
        &mut state,
    )
    .unwrap();
    let message_stop = bedrock_event_to_openai(
        BedrockStreamEvent::MessageStop(BedrockMessageStopEvent {
            stop_reason: Some("end_turn".to_string()),
            additional_model_response_fields: None,
        }),
        &mut state,
    )
    .unwrap();
    let metadata = bedrock_event_to_openai(
        BedrockStreamEvent::Metadata(BedrockConverseStreamMetadataEvent {
            usage: Some(BedrockUsage { input_tokens: 7, output_tokens: 9, total_tokens: 16 }),
        }),
        &mut state,
    )
    .unwrap();

    assert_eq!(message_start[0].choices[0].delta.role.as_deref(), Some("assistant"));
    assert!(message_start[0].id.starts_with("bedrock-"));
    assert_eq!(text_delta[0].choices[0].delta.content.as_deref(), Some("hello from stream"));
    assert_eq!(message_stop[0].choices[0].finish_reason.as_deref(), Some("stop"));
    assert_eq!(metadata[0].usage.as_ref().unwrap().total_tokens, 16);
    assert_eq!(state.input_tokens, Some(7));
    assert_eq!(state.output_tokens, Some(9));
}

#[test]
fn parse_bedrock_stream_to_openai_emits_tool_call_start_and_delta() {
    let mut state = state_with_model();

    bedrock_event_to_openai(
        BedrockStreamEvent::MessageStart(BedrockMessageStartEvent { role: BedrockRole::Assistant }),
        &mut state,
    )
    .unwrap();
    let tool_start = bedrock_event_to_openai(
        BedrockStreamEvent::ContentBlockStart(BedrockContentBlockStartEvent {
            content_block_index: 0,
            start: Some(BedrockContentBlockStart {
                tool_use: Some(BedrockToolUseBlockStart {
                    tool_use_id: "toolu_123".to_string(),
                    name: "get_weather".to_string(),
                }),
            }),
        }),
        &mut state,
    )
    .unwrap();
    let tool_delta = bedrock_event_to_openai(
        BedrockStreamEvent::ContentBlockDelta(BedrockContentBlockDeltaEvent {
            content_block_index: 0,
            delta: BedrockContentBlockDelta {
                text: None,
                tool_use: Some(BedrockToolUseBlockDelta { input: "{\"city\":\"Shanghai\"}".to_string() }),
            },
        }),
        &mut state,
    )
    .unwrap();

    assert_eq!(tool_start[0].choices[0].delta.tool_calls.as_ref().unwrap()[0].name.as_deref(), Some("get_weather"));
    assert_eq!(
        tool_delta[0].choices[0].delta.tool_calls.as_ref().unwrap()[0].arguments.as_deref(),
        Some("{\"city\":\"Shanghai\"}")
    );
    assert_eq!(state.get_accumulator((0, 0)).map(|a| a.arguments.as_str()), Some("{\"city\":\"Shanghai\"}"));
}

#[test]
fn finish_reasons_and_usage_map_to_openai_terms() {
    assert_eq!(map_finish_reason("end_turn"), "stop");
    assert_eq!(map_finish_reason("tool_use"), "tool_calls");
    assert_eq!(map_finish_reason("max_tokens"), "length");
    let u = bedrock_usage_to_openai_usage(&BedrockUsage { input_tokens: 1, output_tokens: 2, total_tokens: 3 });
    assert_eq!((u.prompt_tokens, u.completion_tokens, u.total_tokens), (1, 2, 3));
    assert!(u.prompt_tokens_details.is_none());
}
