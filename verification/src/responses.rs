//! The bridge between the OpenAI Responses API and the Chat Completions hub
//! format: requests go to the hub, responses and streamed chunks come back.
use vstd::prelude::*;

use crate::auth::GatewayError;
use crate::chat::{
    content_view, dup_opt_json, opt_content_view, opt_json, part_view, tool_choice_view, ChatChoice,
    ChatCompletionChunk, ChatCompletionRequest, ChatCompletionResponse, ChunkToolCall, ContentV, PartV, ToolChoiceV, ChatCompletionUsage, ChatMessage, ContentPart,
    merged_usage, OpenAIResponsesNativeStreamState, resolved_total_spec, FunctionTool, MessageContent, ResponseFormat, ToolCall, ToolChoice, Usage,
};
use crate::json::{field_lookup, fields_view, obj_get, JsonV, JsonValue};
use crate::text::{
    clone_opt_string, clone_strings, concat, decimal, decimal_spec, opt_view, str_eq, to_owned_string,
};

verus! {

/// How the Responses API truncates context.
#[derive(Clone, Copy, Debug, PartialEq, Eq, Structural)]
pub enum Truncation {
    Auto,
    Disabled,
}

/// One part of Responses API input content.
#[derive(Debug)]
pub enum ResponsesContentPart {
    InputText { text: String },
    InputImage { image_url: Option<String>, file_id: Option<String>, detail: Option<String> },
}

/// Responses API input content.
#[derive(Debug)]
pub enum ResponsesContent {
    Text(String),
    Parts(Vec<ResponsesContentPart>),
}

/// One item of Responses API input.
#[derive(Debug)]
pub enum ResponsesInputItem {
    Message { role: String, content: ResponsesContent },
    FunctionCallOutput { call_id: String, output: String },
}

/// Responses API input: plain text or a list of items.
#[derive(Debug)]
pub enum ResponsesInput {
    Text(String),
    Items(Vec<ResponsesInputItem>),
}

/// A tool offered in a Responses API request.
#[derive(Debug)]
pub enum ResponsesTool {
    Function {
        name: String,
        description: Option<String>,
        parameters: Option<JsonValue>,
        strict: Option<bool>,
    },
    /// A tool that the Responses API hosts itself, by its type name.
    BuiltIn { tool_type: String },
}

/// The `text` settings of a Responses API request.
#[derive(Debug)]
pub struct ResponseTextConfig {
    pub format: Option<JsonValue>,
}

/// A Responses API request. Sampling parameters are held as the JSON text
/// of the number that the client sent.
#[derive(Debug)]
pub struct ResponsesApiRequest {
    pub model: String,
    pub input: ResponsesInput,
    pub instructions: Option<String>,
    pub max_output_tokens: Option<u32>,
    pub temperature: Option<String>,
    pub top_p: Option<String>,
    pub tools: Option<Vec<ResponsesTool>>,
    pub tool_choice: Option<JsonValue>,
    pub parallel_tool_calls: Option<bool>,
    pub stream: Option<bool>,
    pub store: Option<bool>,
    pub metadata: Option<JsonValue>,
    pub previous_response_id: Option<String>,
    pub background: Option<bool>,
    pub context_management: Option<JsonValue>,
    pub conversation: Option<JsonValue>,
    pub includes: Option<Vec<String>>,
    pub max_tool_calls: Option<u64>,
    pub prompt: Option<JsonValue>,
    pub prompt_cache_key: Option<String>,
    pub prompt_cache_retention: Option<String>,
    pub reasoning: Option<JsonValue>,
    pub safety_identifier: Option<String>,
    pub service_tier: Option<String>,
    pub stream_options: Option<JsonValue>,
    pub text: Option<ResponseTextConfig>,
    pub top_logprobs: Option<u64>,
    pub truncation: Option<Truncation>,
}

/// Responses API settings that Chat Completions has no field for, kept so
/// that the bridged response can carry them back.
#[derive(Debug)]
pub struct OpenAIResponsesExtras {
    pub previous_response_id: Option<String>,
    pub instructions: Option<String>,
    pub store: Option<bool>,
    pub metadata: Option<JsonValue>,
    pub background: Option<bool>,
    pub context_management: Option<JsonValue>,
    pub conversation: Option<JsonValue>,
    pub includes: Option<Vec<String>>,
    pub max_tool_calls: Option<u64>,
    pub prompt: Option<JsonValue>,
    pub prompt_cache_key: Option<String>,
    pub prompt_cache_retention: Option<String>,
    pub reasoning: Option<JsonValue>,
    pub safety_identifier: Option<String>,
    pub service_tier: Option<String>,
    pub stream_options: Option<JsonValue>,
    pub text: Option<ResponseTextConfig>,
    pub top_logprobs: Option<u64>,
    pub truncation: Option<Truncation>,
}

/// What a bridge carries from the request to the response.
#[derive(Debug)]
pub struct BridgeContext {
    pub openai_responses_extras: Option<OpenAIResponsesExtras>,
}

impl BridgeContext {
    /// A context that carries nothing.
    pub fn empty() -> (r: BridgeContext)
        ensures
            r.openai_responses_extras is None,
    {
        BridgeContext { openai_responses_extras: None }
    }
}

/// The message for a request in background mode.
pub open spec fn background_message() -> Seq<char> {
    "Responses API background mode cannot be bridged through Chat Completions"@
}

/// The message for a request with automatic truncation.
pub open spec fn truncation_message() -> Seq<char> {
    "Responses API truncation=auto cannot be bridged through Chat Completions"@
}

/// The message for a request with a hosted tool.
pub open spec fn builtin_tools_message() -> Seq<char> {
    "Responses API built-in tools cannot be bridged through Chat Completions"@
}

/// Whether the request offers a hosted tool.
pub open spec fn has_builtin_tool(req: ResponsesApiRequest) -> bool {
    match req.tools {
        Some(ts) => exists|i: int| 0 <= i < ts@.len() && ts@[i] is BuiltIn,
        None => false,
    }
}

/// Why the request cannot go through Chat Completions at all, if it cannot.
pub open spec fn bridge_block(req: ResponsesApiRequest) -> Option<Seq<char>> {
    if req.background == Some(true) {
        Some(background_message())
    } else if req.truncation == Some(Truncation::Auto) {
        Some(truncation_message())
    } else if has_builtin_tool(req) {
        Some(builtin_tools_message())
    } else {
        None
    }
}

/// Refuses requests whose features Chat Completions cannot express.
pub fn ensure_request_is_bridgeable(request: &ResponsesApiRequest) -> (r: Result<(), GatewayError>)
    ensures
        bridge_block(*request) is None ==> r is Ok,
        bridge_block(*request) matches Some(m) ==> (r matches Err(GatewayError::Bridge(e)) && e@ == m),
{
    if let Some(true) = request.background {
        return Err(GatewayError::Bridge(to_owned_string(
            "Responses API background mode cannot be bridged through Chat Completions",
        )));
    }
    if let Some(Truncation::Auto) = request.truncation {
        return Err(GatewayError::Bridge(to_owned_string(
            "Responses API truncation=auto cannot be bridged through Chat Completions",
        )));
    }
    if let Some(tools) = &request.tools {
        let mut i: usize = 0;
        while i < tools.len()
            invariant
                0 <= i <= tools@.len(),
                request.background != Some(true),
                request.truncation != Some(Truncation::Auto),
                request.tools == Some(*tools),
                forall|j: int| 0 <= j < i ==> !(tools@[j] is BuiltIn),
            decreases tools.len() - i,
        {
            if let ResponsesTool::BuiltIn { .. } = &tools[i] {
                assert(tools@[i as int] is BuiltIn);
                return Err(GatewayError::Bridge(to_owned_string(
                    "Responses API built-in tools cannot be bridged through Chat Completions",
                )));
            }
            i += 1;
        }
    }
    Ok(())
}

/// The message for an input image that has no URL.
pub open spec fn image_message(file_id: Option<Seq<char>>) -> Seq<char> {
    "Responses API input_image with file_id "@ + match file_id {
        Some(f) => f,
        None => "<unknown>"@,
    } + " cannot be bridged through Chat Completions"@
}

/// Why an input part cannot be bridged, if it cannot.
pub open spec fn part_error(p: ResponsesContentPart) -> Option<Seq<char>> {
    match p {
        ResponsesContentPart::InputImage { image_url: None, file_id, .. } => Some(image_message(opt_view(file_id))),
        _ => None,
    }
}

/// The hub form of an input part that can be bridged.
pub open spec fn part_bridged(p: ResponsesContentPart) -> PartV {
    match p {
        ResponsesContentPart::InputText { text } => PartV::Text(text@),
        ResponsesContentPart::InputImage { image_url, detail, .. } => PartV::Image(
            opt_view(image_url).unwrap_or(Seq::empty()),
            opt_view(detail),
        ),
    }
}

/// Converts an input part to a hub content part.
pub fn response_content_part_to_hub_content_part(part: &ResponsesContentPart) -> (r: Result<ContentPart, GatewayError>)
    ensures
        part_error(*part) is None ==> (r matches Ok(q) && part_view(q) == part_bridged(*part)),
        part_error(*part) matches Some(m) ==> (r matches Err(GatewayError::Bridge(e)) && e@ == m),
{
    match part {
        ResponsesContentPart::InputText { text } => Ok(ContentPart::Text { text: to_owned_string(text.as_str()) }),
        ResponsesContentPart::InputImage { image_url, file_id, detail } => {
            match image_url {
                Some(url) => Ok(ContentPart::ImageUrl {
                    url: to_owned_string(url.as_str()),
                    detail: clone_opt_string(detail),
                }),
                None => {
                    let id = match file_id {
                        Some(f) => f.as_str(),
                        None => "<unknown>",
                    };
                    let head = concat("Responses API input_image with file_id ", id);
                    Err(GatewayError::Bridge(concat(head.as_str(), " cannot be bridged through Chat Completions")))
                },
            }
        },
    }
}

/// The error of the first part that cannot be bridged, if any.
pub open spec fn parts_error(parts: Seq<ResponsesContentPart>) -> Option<Seq<char>>
    decreases parts.len(),
{
    if parts.len() == 0 {
        None
    } else {
        match part_error(parts[0]) {
            Some(m) => Some(m),
            None => parts_error(parts.drop_first()),
        }
    }
}

/// The error of the first part from `i` on that cannot be bridged.
proof fn lemma_parts_error_step(parts: Seq<ResponsesContentPart>, i: int)
    requires
        0 <= i < parts.len(),
    ensures
        parts_error(parts.skip(i)) == match part_error(parts[i]) {
            Some(m) => Some(m),
            None => parts_error(parts.skip(i + 1)),
        },
{
    assert(parts.skip(i)[0] == parts[i]);
    assert(parts.skip(i).drop_first() =~= parts.skip(i + 1));
}

/// Why input content cannot be bridged, if it cannot.
pub open spec fn content_error(c: ResponsesContent) -> Option<Seq<char>> {
    match c {
        ResponsesContent::Text(_) => None,
        ResponsesContent::Parts(ps) => parts_error(ps@),
    }
}

/// The hub form of input content that can be bridged.
pub open spec fn content_bridged(c: ResponsesContent) -> ContentV {
    match c {
        ResponsesContent::Text(t) => ContentV::Text(t@),
        ResponsesContent::Parts(ps) => ContentV::Parts(ps@.map_values(|p: ResponsesContentPart| part_bridged(p))),
    }
}

/// Converts input content to hub message content.
pub fn responses_content_to_hub_message_content(content: &ResponsesContent) -> (r: Result<MessageContent, GatewayError>)
    ensures
        content_error(*content) is None ==> (r matches Ok(c) && content_view(c) == content_bridged(*content)),
        content_error(*content) matches Some(m) ==> (r matches Err(GatewayError::Bridge(e)) && e@ == m),
{
    match content {
        ResponsesContent::Text(t) => Ok(MessageContent::Text(to_owned_string(t.as_str()))),
        ResponsesContent::Parts(parts) => {
            let mut out: Vec<ContentPart> = Vec::new();
            let mut i: usize = 0;
            proof {
                assert(parts@.skip(0) =~= parts@);
            }
            while i < parts.len()
                invariant
                    0 <= i <= parts@.len(),
                    out@.len() == i,
                    content_error(*content) == parts_error(parts@),
                    content_bridged(*content) == ContentV::Parts(parts@.map_values(|p: ResponsesContentPart| part_bridged(p))),
                    parts_error(parts@) == parts_error(parts@.skip(i as int)),
                    forall|j: int| 0 <= j < i ==> part_view(#[trigger] out@[j]) == part_bridged(parts@[j]),
                decreases parts.len() - i,
            {
                proof {
                    lemma_parts_error_step(parts@, i as int);
                }
                match response_content_part_to_hub_content_part(&parts[i]) {
                    Ok(q) => {
                        out.push(q);
                    },
                    Err(e) => {
                        proof {
                            assert(part_error(parts@[i as int]) is Some);
                            assert(parts_error(parts@) == part_error(parts@[i as int]));
                        }
                        return Err(e);
                    },
                }
                i += 1;
            }
            proof {
                assert(parts@.skip(i as int) =~= Seq::<ResponsesContentPart>::empty());
                assert(out@.map_values(|p: ContentPart| part_view(p)) =~= parts@.map_values(
                    |p: ResponsesContentPart| part_bridged(p),
                ));
            }
            Ok(MessageContent::Parts(out))
        },
    }
}

/// Why an input item cannot be bridged, if it cannot.
pub open spec fn item_error(item: ResponsesInputItem) -> Option<Seq<char>> {
    match item {
        ResponsesInputItem::Message { content, .. } => content_error(content),
        ResponsesInputItem::FunctionCallOutput { .. } => None,
    }
}

/// Whether `m` is the hub message for an input item that can be bridged.
pub open spec fn item_bridged(item: ResponsesInputItem, m: ChatMessage) -> bool {
    &&& m.name is None
    &&& m.tool_calls is None
    &&& match item {
        ResponsesInputItem::Message { role, content } => {
            &&& m.role@ == role@
            &&& opt_content_view(m.content) == Some(content_bridged(content))
            &&& m.tool_call_id is None
        },
        ResponsesInputItem::FunctionCallOutput { call_id, output } => {
            &&& m.role@ == "tool"@
            &&& opt_content_view(m.content) == Some(ContentV::Text(output@))
            &&& opt_view(m.tool_call_id) == Some(call_id@)
        },
    }
}

/// Converts an input item to a hub message.
pub fn responses_input_item_to_hub_message(item: &ResponsesInputItem) -> (r: Result<ChatMessage, GatewayError>)
    ensures
        item_error(*item) is None ==> (r matches Ok(m) && item_bridged(*item, m)),
        item_error(*item) matches Some(e) ==> (r matches Err(GatewayError::Bridge(x)) && x@ == e),
{
    match item {
        ResponsesInputItem::Message { role, content } => {
            let c = responses_content_to_hub_message_content(content)?;
            Ok(ChatMessage {
                role: to_owned_string(role.as_str()),
                content: Some(c),
                name: None,
                tool_calls: None,
                tool_call_id: None,
            })
        },
        ResponsesInputItem::FunctionCallOutput { call_id, output } => Ok(ChatMessage {
            role: to_owned_string("tool"),
            content: Some(MessageContent::Text(to_owned_string(output.as_str()))),
            name: None,
            tool_calls: None,
            tool_call_id: Some(to_owned_string(call_id.as_str())),
        }),
    }
}

/// Whether `f` is the hub form of the function tool `t`.
pub open spec fn tool_bridged(t: ResponsesTool, f: FunctionTool) -> bool {
    match t {
        ResponsesTool::Function { name, description, parameters, strict } => {
            &&& f.tool_type@ == "function"@
            &&& f.name@ == name@
            &&& opt_view(f.description) == opt_view(description)
            &&& opt_json(f.parameters) == opt_json(parameters)
            &&& f.strict == strict
        },
        ResponsesTool::BuiltIn { .. } => false,
    }
}

/// Converts a function tool to the hub form; hosted tools are refused.
pub fn responses_tool_to_hub_tool(tool: &ResponsesTool) -> (r: Result<FunctionTool, GatewayError>)
    ensures
        tool is Function ==> (r matches Ok(f) && tool_bridged(*tool, f)),
        tool is BuiltIn ==> (r matches Err(GatewayError::Bridge(e)) && e@ == builtin_tools_message()),
{
    match tool {
        ResponsesTool::Function { name, description, parameters, strict } => Ok(FunctionTool {
            tool_type: to_owned_string("function"),
            name: to_owned_string(name.as_str()),
            description: clone_opt_string(description),
            parameters: dup_opt_json(parameters),
            strict: *strict,
        }),
        ResponsesTool::BuiltIn { .. } => Err(GatewayError::Bridge(to_owned_string(
            "Responses API built-in tools cannot be bridged through Chat Completions",
        ))),
    }
}

/// The message for a tool choice object without a type.
pub open spec fn choice_type_message() -> Seq<char> {
    "Responses API tool_choice object requires a type field"@
}

/// The message for a function tool choice without a name.
pub open spec fn choice_name_message() -> Seq<char> {
    "Responses API function tool_choice requires a function name"@
}

/// The message for a tool choice that is neither a string nor an object.
pub open spec fn choice_shape_message() -> Seq<char> {
    "Responses API tool_choice must be a string or object"@
}

/// The message for a tool choice of an unknown type.
pub open spec fn choice_kind_message(kind: Seq<char>) -> Seq<char> {
    "unsupported Responses API tool_choice type "@ + kind + " for hub bridging"@
}

/// The field `key` of an object, when it is a string.
pub open spec fn str_field(fs: Seq<(Seq<char>, JsonV)>, key: Seq<char>) -> Option<Seq<char>> {
    match field_lookup(fs, key) {
        Some(JsonV::Str(s)) => Some(s),
        _ => None,
    }
}

/// The function name of a function tool choice: its own `name`, or else
/// the `name` of its `function` object.
pub open spec fn choice_function_name(fs: Seq<(Seq<char>, JsonV)>) -> Option<Seq<char>> {
    match str_field(fs, "name"@) {
        Some(n) => Some(n),
        None => match field_lookup(fs, "function"@) {
            Some(JsonV::Object(g)) => str_field(g, "name"@),
            _ => None,
        },
    }
}

/// The hub tool choice for a Responses API tool choice, or why there is none.
pub open spec fn hub_tool_choice(v: JsonV) -> Result<ToolChoiceV, Seq<char>> {
    match v {
        JsonV::Str(m) => Ok(ToolChoiceV::Mode(m)),
        JsonV::Object(fs) => match str_field(fs, "type"@) {
            Some(kind) => if kind == "none"@ || kind == "auto"@ || kind == "required"@ {
                Ok(ToolChoiceV::Mode(kind))
            } else if kind == "function"@ {
                match choice_function_name(fs) {
                    Some(n) => Ok(ToolChoiceV::Function("function"@, n)),
                    None => Err(choice_name_message()),
                }
            } else {
                Err(choice_kind_message(kind))
            },
            None => Err(choice_type_message()),
        },
        _ => Err(choice_shape_message()),
    }
}

/// The string field `key` of an object's fields.
fn get_str_field<'a>(fields: &'a Vec<(String, JsonValue)>, key: &str) -> (r: Option<&'a str>)
    ensures
        r is Some == str_field(fields_view(fields@), key@) is Some,
        r matches Some(s) ==> str_field(fields_view(fields@), key@) == Some(s@),
{
    match obj_get(fields, key) {
        Some(v) => v.as_str(),
        None => None,
    }
}

/// Converts a Responses API tool choice to the hub form.
pub fn responses_tool_choice_to_hub(tool_choice: Option<&JsonValue>) -> (r: Result<Option<ToolChoice>, GatewayError>)
    ensures
        tool_choice is None ==> r matches Ok(None),
        tool_choice matches Some(v) ==> match hub_tool_choice(v@) {
            Ok(t) => r matches Ok(Some(c)) && tool_choice_view(c) == t,
            Err(m) => r matches Err(GatewayError::Bridge(e)) && e@ == m,
        },
{
    let v = match tool_choice {
        Some(v) => v,
        None => {
            return Ok(None);
        },
    };
    match v {
        JsonValue::Str(mode) => Ok(Some(ToolChoice::Mode(to_owned_string(mode.as_str())))),
        JsonValue::Object(fields) => {
            proof {
                assert(v@->Object_0 =~= fields_view(fields@));
            }
            let kind = match get_str_field(fields, "type") {
                Some(k) => k,
                None => {
                    return Err(GatewayError::Bridge(to_owned_string(
                        "Responses API tool_choice object requires a type field",
                    )));
                },
            };
            if str_eq(kind, "none") || str_eq(kind, "auto") || str_eq(kind, "required") {
                Ok(Some(ToolChoice::Mode(to_owned_string(kind))))
            } else if str_eq(kind, "function") {
                let name = match get_str_field(fields, "name") {
                    Some(n) => Some(n),
                    None => match obj_get(fields, "function") {
                        Some(f) => match f {
                            JsonValue::Object(g) => {
                                proof {
                                    assert(f@->Object_0 =~= fields_view(g@));
                                }
                                get_str_field(g, "name")
                            },
                            _ => None,
                        },
                        None => None,
                    },
                };
                match name {
                    Some(n) => Ok(Some(ToolChoice::Function { kind: to_owned_string("function"), name: to_owned_string(n) })),
                    None => Err(GatewayError::Bridge(to_owned_string(
                        "Responses API function tool_choice requires a function name",
                    ))),
                }
            } else {
                let head = concat("unsupported Responses API tool_choice type ", kind);
                Err(GatewayError::Bridge(concat(head.as_str(), " for hub bridging")))
            }
        },
        _ => Err(GatewayError::Bridge(to_owned_string(
            "Responses API tool_choice must be a string or object",
        ))),
    }
}

/// The message for a `text.format` that is not a response format.
pub open spec fn format_message() -> Seq<char> {
    "Responses API text.format cannot be bridged to Chat Completions response_format: expected an object with a string type field"@
}

/// The response format a `text.format` value stands for: its `type` and
/// its `json_schema`, when it is an object with a string `type`.
pub open spec fn format_bridged(v: JsonV) -> Option<(Seq<char>, Option<JsonV>)> {
    match v {
        JsonV::Object(fs) => match str_field(fs, "type"@) {
            Some(t) => Some((t, field_lookup(fs, "json_schema"@))),
            None => None,
        },
        _ => None,
    }
}

/// The `text.format` of a request's text settings, if any.
pub open spec fn text_format(text: Option<&ResponseTextConfig>) -> Option<JsonV> {
    match text {
        Some(t) => opt_json(t.format),
        None => None,
    }
}

/// Whether `f` is the response format that `text` asks for.
pub open spec fn format_matches(text: Option<&ResponseTextConfig>, f: Option<ResponseFormat>) -> bool {
    match text_format(text) {
        None => f is None,
        Some(v) => match (format_bridged(v), f) {
            (Some((t, schema)), Some(rf)) => rf.format_type@ == t && opt_json(rf.json_schema) == schema,
            _ => false,
        },
    }
}

/// Why `text.format` cannot be bridged, if it cannot.
pub open spec fn format_error(text: Option<&ResponseTextConfig>) -> Option<Seq<char>> {
    match text_format(text) {
        Some(v) => if format_bridged(v) is None {
            Some(format_message())
        } else {
            None
        },
        None => None,
    }
}

/// Converts the request's text settings to a hub response format.
pub fn responses_text_config_to_hub_response_format(text: Option<&ResponseTextConfig>) -> (r: Result<Option<ResponseFormat>, GatewayError>)
    ensures
        format_error(text) is None ==> (r matches Ok(f) && format_matches(text, f)),
        format_error(text) matches Some(m) ==> (r matches Err(GatewayError::Bridge(e)) && e@ == m),
{
    let t = match text {
        Some(t) => t,
        None => {
            return Ok(None);
        },
    };
    let format = match &t.format {
        Some(f) => f,
        None => {
            return Ok(None);
        },
    };
    match format {
        JsonValue::Object(fields) => {
            proof {
                assert(format@->Object_0 =~= fields_view(fields@));
            }
            match get_str_field(fields, "type") {
                Some(kind) => {
                    let schema = match obj_get(fields, "json_schema") {
                        Some(v) => Some(v.duplicate()),
                        None => None,
                    };
                    Ok(Some(ResponseFormat { format_type: to_owned_string(kind), json_schema: schema }))
                },
                None => Err(GatewayError::Bridge(to_owned_string(
                    "Responses API text.format cannot be bridged to Chat Completions response_format: expected an object with a string type field",
                ))),
            }
        },
        _ => Err(GatewayError::Bridge(to_owned_string(
            "Responses API text.format cannot be bridged to Chat Completions response_format: expected an object with a string type field",
        ))),
    }
}

/// Optional text settings, by their view.
pub open spec fn opt_text_view(t: Option<ResponseTextConfig>) -> Option<Option<JsonV>> {
    match t {
        Some(c) => Some(opt_json(c.format)),
        None => None,
    }
}

/// A copy of optional text settings.
fn dup_text_config(t: &Option<ResponseTextConfig>) -> (r: Option<ResponseTextConfig>)
    ensures
        opt_text_view(r) == opt_text_view(*t),
{
    match t {
        Some(c) => Some(ResponseTextConfig { format: dup_opt_json(&c.format) }),
        None => None,
    }
}

/// An optional list of strings, by its view.
pub open spec fn opt_strings(o: Option<Vec<String>>) -> Option<Seq<Seq<char>>> {
    match o {
        Some(v) => Some(v@.map_values(|s: String| s@)),
        None => None,
    }
}

/// Whether the request sets none of the settings kept as extras.
pub open spec fn no_extras(req: ResponsesApiRequest) -> bool {
    &&& req.previous_response_id is None
    &&& req.instructions is None
    &&& req.store is None
    &&& req.metadata is None
    &&& req.background is None
    &&& req.context_management is None
    &&& req.conversation is None
    &&& req.includes is None
    &&& req.max_tool_calls is None
    &&& req.prompt is None
    &&& req.prompt_cache_key is None
    &&& req.prompt_cache_retention is None
    &&& req.reasoning is None
    &&& req.safety_identifier is None
    &&& req.service_tier is None
    &&& req.stream_options is None
    &&& req.text is None
    &&& req.top_logprobs is None
    &&& req.truncation is None
}

/// Whether `e` holds exactly the request's settings kept as extras.
pub open spec fn extras_of(e: OpenAIResponsesExtras, req: ResponsesApiRequest) -> bool {
    &&& opt_view(e.previous_response_id) == opt_view(req.previous_response_id)
    &&& opt_view(e.instructions) == opt_view(req.instructions)
    &&& e.store == req.store
    &&& opt_json(e.metadata) == opt_json(req.metadata)
    &&& e.background == req.background
    &&& opt_json(e.context_management) == opt_json(req.context_management)
    &&& opt_json(e.conversation) == opt_json(req.conversation)
    &&& opt_strings(e.includes) == opt_strings(req.includes)
    &&& e.max_tool_calls == req.max_tool_calls
    &&& opt_json(e.prompt) == opt_json(req.prompt)
    &&& opt_view(e.prompt_cache_key) == opt_view(req.prompt_cache_key)
    &&& opt_view(e.prompt_cache_retention) == opt_view(req.prompt_cache_retention)
    &&& opt_json(e.reasoning) == opt_json(req.reasoning)
    &&& opt_view(e.safety_identifier) == opt_view(req.safety_identifier)
    &&& opt_view(e.service_tier) == opt_view(req.service_tier)
    &&& opt_json(e.stream_options) == opt_json(req.stream_options)
    &&& opt_text_view(e.text) == opt_text_view(req.text)
    &&& e.top_logprobs == req.top_logprobs
    &&& e.truncation == req.truncation
}

/// The settings of a request that Chat Completions cannot carry, or none
/// where the request sets none of them.
pub fn responses_extras_from_request(request: &ResponsesApiRequest) -> (r: Option<OpenAIResponsesExtras>)
    ensures
        r is None <==> no_extras(*request),
        r matches Some(e) ==> extras_of(e, *request),
{
    let includes = match &request.includes {
        Some(v) => {
            let c = clone_strings(v);
            proof {
                assert(c@.map_values(|s: String| s@) =~= v@.map_values(|s: String| s@));
            }
            Some(c)
        },
        None => None,
    };
    let extras = OpenAIResponsesExtras {
        previous_response_id: clone_opt_string(&request.previous_response_id),
        instructions: clone_opt_string(&request.instructions),
        store: request.store,
        metadata: dup_opt_json(&request.metadata),
        background: request.background,
        context_management: dup_opt_json(&request.context_management),
        conversation: dup_opt_json(&request.conversation),
        includes,
        max_tool_calls: request.max_tool_calls,
        prompt: dup_opt_json(&request.prompt),
        prompt_cache_key: clone_opt_string(&request.prompt_cache_key),
        prompt_cache_retention: clone_opt_string(&request.prompt_cache_retention),
        reasoning: dup_opt_json(&request.reasoning),
        safety_identifier: clone_opt_string(&request.safety_identifier),
        service_tier: clone_opt_string(&request.service_tier),
        stream_options: dup_opt_json(&request.stream_options),
        text: dup_text_config(&request.text),
        top_logprobs: request.top_logprobs,
        truncation: request.truncation,
    };
    if extras.previous_response_id.is_none() && extras.instructions.is_none() && extras.store.is_none()
        && extras.metadata.is_none() && extras.background.is_none()
        && extras.context_management.is_none() && extras.conversation.is_none()
        && extras.includes.is_none() && extras.max_tool_calls.is_none() && extras.prompt.is_none()
        && extras.prompt_cache_key.is_none() && extras.prompt_cache_retention.is_none()
        && extras.reasoning.is_none() && extras.safety_identifier.is_none()
        && extras.service_tier.is_none() && extras.stream_options.is_none()
        && extras.text.is_none() && extras.top_logprobs.is_none() && extras.truncation.is_none() {
        None
    } else {
        Some(extras)
    }
}

/// The error of the first input item that cannot be bridged, if any.
pub open spec fn items_error(items: Seq<ResponsesInputItem>) -> Option<Seq<char>>
    decreases items.len(),
{
    if items.len() == 0 {
        None
    } else {
        match item_error(items[0]) {
            Some(m) => Some(m),
            None => items_error(items.drop_first()),
        }
    }
}

proof fn lemma_items_error_step(items: Seq<ResponsesInputItem>, i: int)
    requires
        0 <= i < items.len(),
    ensures
        items_error(items.skip(i)) == match item_error(items[i]) {
            Some(m) => Some(m),
            None => items_error(items.skip(i + 1)),
        },
{
    assert(items.skip(i)[0] == items[i]);
    assert(items.skip(i).drop_first() =~= items.skip(i + 1));
}

/// Why the input cannot be bridged, if it cannot.
pub open spec fn input_error(input: ResponsesInput) -> Option<Seq<char>> {
    match input {
        ResponsesInput::Text(_) => None,
        ResponsesInput::Items(items) => items_error(items@),
    }
}

/// Why the tool choice cannot be bridged, if it cannot.
pub open spec fn tool_choice_error(tc: Option<JsonValue>) -> Option<Seq<char>> {
    match tc {
        Some(v) => match hub_tool_choice(v@) {
            Ok(_) => None,
            Err(m) => Some(m),
        },
        None => None,
    }
}

/// Why the request cannot be bridged to Chat Completions, checked in the
/// order the bridge checks: request features, input, tool choice, format.
pub open spec fn to_hub_error(req: ResponsesApiRequest) -> Option<Seq<char>> {
    match bridge_block(req) {
        Some(m) => Some(m),
        None => match input_error(req.input) {
            Some(m) => Some(m),
            None => match tool_choice_error(req.tool_choice) {
                Some(m) => Some(m),
                None => format_error(
                    match req.text {
                        Some(t) => Some(&t),
                        None => None,
                    },
                ),
            },
        },
    }
}

/// The system prompt the request's instructions give, when not empty.
pub open spec fn system_text(req: ResponsesApiRequest) -> Option<Seq<char>> {
    match req.instructions {
        Some(t) => if t@.len() > 0 {
            Some(t@)
        } else {
            None
        },
        None => None,
    }
}

/// Whether `m` is a plain text message from `role`.
pub open spec fn plain_message(m: ChatMessage, role: Seq<char>, text: Seq<char>) -> bool {
    &&& m.role@ == role
    &&& opt_content_view(m.content) == Some(ContentV::Text(text))
    &&& m.name is None
    &&& m.tool_calls is None
    &&& m.tool_call_id is None
}

/// Whether `ms` are the hub messages for the request: the instructions as
/// a system message, then the input.
pub open spec fn hub_messages_match(req: ResponsesApiRequest, ms: Seq<ChatMessage>) -> bool {
    let off: int = if system_text(req) is Some {
        1
    } else {
        0
    };
    &&& system_text(req) matches Some(t) ==> plain_message(ms[0], "system"@, t)
    &&& match req.input {
        ResponsesInput::Text(t) => ms.len() == off + 1 && plain_message(ms[off], "user"@, t@),
        ResponsesInput::Items(items) => ms.len() == off + items@.len() && forall|j: int|
            0 <= j < items@.len() ==> item_bridged(items@[j], #[trigger] ms[off + j]),
    }
}

/// Whether `out` are the hub tools for `tools`.
pub open spec fn hub_tools_match(tools: Option<Vec<ResponsesTool>>, out: Option<Vec<FunctionTool>>) -> bool {
    match (tools, out) {
        (None, None) => true,
        (Some(ts), Some(fs)) => fs@.len() == ts@.len() && forall|j: int|
            0 <= j < ts@.len() ==> tool_bridged(ts@[j], #[trigger] fs@[j]),
        _ => false,
    }
}

/// Whether `hub` is the Chat Completions request for `req`.
pub open spec fn hub_request_of(req: ResponsesApiRequest, hub: ChatCompletionRequest) -> bool {
    &&& hub.model@ == req.model@
    &&& hub_messages_match(req, hub.messages@)
    &&& hub.n is None
    &&& hub.stop is None
    &&& hub.max_tokens is None
    &&& hub.max_completion_tokens == req.max_output_tokens
    &&& hub.logprobs == (if req.top_logprobs is Some {
        Some(true)
    } else {
        None
    })
    &&& hub.top_logprobs == req.top_logprobs
    &&& format_matches(
        match req.text {
            Some(t) => Some(&t),
            None => None,
        },
        hub.response_format,
    )
    &&& hub.stream == req.stream
    &&& hub.include_usage == (if req.stream == Some(true) {
        Some(true)
    } else {
        None
    })
    &&& opt_view(hub.temperature) == opt_view(req.temperature)
    &&& opt_view(hub.top_p) == opt_view(req.top_p)
    &&& hub_tools_match(req.tools, hub.tools)
    &&& match req.tool_choice {
        None => hub.tool_choice is None,
        Some(v) => match hub_tool_choice(v@) {
            Ok(t) => hub.tool_choice matches Some(c) && tool_choice_view(c) == t,
            Err(_) => false,
        },
    }
    &&& hub.parallel_tool_calls == req.parallel_tool_calls
}

fn plain_chat_message(role: &str, text: &str) -> (m: ChatMessage)
    ensures
        plain_message(m, role@, text@),
{
    ChatMessage {
        role: to_owned_string(role),
        content: Some(MessageContent::Text(to_owned_string(text))),
        name: None,
        tool_calls: None,
        tool_call_id: None,
    }
}

/// The format of OpenAI's Responses API.
#[derive(Debug)]
pub struct ResponsesApiFormat;

impl ResponsesApiFormat {
    /// The name of the format.
    pub fn name() -> (r: &'static str)
        ensures
            r@ == "openai_responses"@,
    {
        "openai_responses"
    }

    /// Whether the request asks for a stream.
    pub fn is_stream(req: &ResponsesApiRequest) -> (r: bool)
        ensures
            r == (req.stream == Some(true)),
    {
        match req.stream {
            Some(b) => b,
            None => false,
        }
    }

    /// Bridges a Responses API request to a Chat Completions request, with
    /// the settings Chat Completions cannot carry kept in the context.
    pub fn to_hub(req: &ResponsesApiRequest) -> (r: Result<(ChatCompletionRequest, BridgeContext), GatewayError>)
        ensures
            to_hub_error(*req) is None ==> (r matches Ok((hub, ctx)) && hub_request_of(*req, hub) && (
            ctx.openai_responses_extras is None <==> no_extras(*req)) && (
            ctx.openai_responses_extras matches Some(e) ==> extras_of(e, *req))),
            to_hub_error(*req) matches Some(m) ==> (r matches Err(GatewayError::Bridge(e)) && e@ == m),
    {
        ensure_request_is_bridgeable(req)?;
        let mut messages: Vec<ChatMessage> = Vec::new();
        let mut has_system = false;
        if let Some(instructions) = &req.instructions {
            if instructions.as_str().unicode_len() > 0 {
                messages.push(plain_chat_message("system", instructions.as_str()));
                has_system = true;
            }
        }
        let off: usize = if has_system {
            1
        } else {
            0
        };
        assert(has_system == (system_text(*req) is Some));
        match &req.input {
            ResponsesInput::Text(text) => {
                messages.push(plain_chat_message("user", text.as_str()));
            },
            ResponsesInput::Items(items) => {
                let mut i: usize = 0;
                proof {
                    assert(items@.skip(0) =~= items@);
                }
                while i < items.len()
                    invariant
                        0 <= i <= items@.len(),
                        off == (if system_text(*req) is Some {
                            1int
                        } else {
                            0int
                        }),
                        messages@.len() == off + i,
                        req.input == ResponsesInput::Items(*items),
                        system_text(*req) matches Some(t) ==> plain_message(messages@[0], "system"@, t),
                        bridge_block(*req) is None,
                        items_error(items@) == items_error(items@.skip(i as int)),
                        forall|j: int| 0 <= j < i ==> item_bridged(items@[j], #[trigger] messages@[off + j]),
                    decreases items.len() - i,
                {
                    proof {
                        lemma_items_error_step(items@, i as int);
                    }
                    let m = responses_input_item_to_hub_message(&items[i]);
                    match m {
                        Ok(m) => {
                            messages.push(m);
                        },
                        Err(e) => {
                            return Err(e);
                        },
                    }
                    i += 1;
                }
                proof {
                    assert(items@.skip(i as int) =~= Seq::<ResponsesInputItem>::empty());
                }
            },
        }
        let tools = match &req.tools {
            Some(ts) => {
                let mut out: Vec<FunctionTool> = Vec::new();
                let mut i: usize = 0;
                while i < ts.len()
                    invariant
                        0 <= i <= ts@.len(),
                        out@.len() == i,
                        req.tools == Some(*ts),
                        bridge_block(*req) is None,
                        forall|j: int| 0 <= j < i ==> tool_bridged(ts@[j], #[trigger] out@[j]),
                    decreases ts.len() - i,
                {
                    proof {
                        if ts@[i as int] is BuiltIn {
                            assert(has_builtin_tool(*req));
                        }
                    }
                    let f = responses_tool_to_hub_tool(&ts[i]);
                    match f {
                        Ok(f) => {
                            out.push(f);
                        },
                        Err(e) => {
                            return Err(e);
                        },
                    }
                    i += 1;
                }
                Some(out)
            },
            None => None,
        };
        let tool_choice = responses_tool_choice_to_hub(req.tool_choice.as_ref())?;
        let response_format = responses_text_config_to_hub_response_format(req.text.as_ref())?;
        let include_usage = match req.stream {
            Some(true) => Some(true),
            _ => None,
        };
        let logprobs = match req.top_logprobs {
            Some(_) => Some(true),
            None => None,
        };
        let hub = ChatCompletionRequest {
            model: to_owned_string(req.model.as_str()),
            messages,
            n: None,
            stop: None,
            max_tokens: None,
            max_completion_tokens: req.max_output_tokens,
            logprobs,
            top_logprobs: req.top_logprobs,
            response_format,
            stream: req.stream,
            include_usage,
            temperature: clone_opt_string(&req.temperature),
            top_p: clone_opt_string(&req.top_p),
            tools,
            tool_choice,
            parallel_tool_calls: req.parallel_tool_calls,
        };
        let ctx = BridgeContext { openai_responses_extras: responses_extras_from_request(req) };
        Ok((hub, ctx))
    }
}

/// A piece of output content.
#[derive(Debug)]
pub enum ResponsesOutputContent {
    OutputText { text: String },
}

/// An item of Responses API output.
#[derive(Debug)]
pub enum ResponsesOutputItem {
    Message { id: String, role: String, content: Vec<ResponsesOutputContent>, status: String },
    FunctionCall { id: String, call_id: String, name: String, arguments: String, status: String },
}

/// Token counts of a Responses API response.
#[derive(Clone, Copy, Debug, PartialEq, Eq, Structural)]
pub struct ResponsesUsage {
    pub input_tokens: u64,
    pub output_tokens: u64,
    pub total_tokens: u64,
}

/// A Responses API response.
#[derive(Debug)]
pub struct ResponsesApiResponse {
    pub id: String,
    pub object: String,
    pub created_at: u64,
    pub model: String,
    pub output: Vec<ResponsesOutputItem>,
    pub status: String,
    pub usage: ResponsesUsage,
    pub metadata: Option<JsonValue>,
    pub previous_response_id: Option<String>,
}

/// The mathematical form of an output item.
pub ghost enum ItemV {
    Message { id: Seq<char>, role: Seq<char>, texts: Seq<Seq<char>>, status: Seq<char> },
    FunctionCall { id: Seq<char>, call_id: Seq<char>, name: Seq<char>, arguments: Seq<char>, status: Seq<char> },
}

/// The text of a piece of output content.
pub open spec fn output_text(c: ResponsesOutputContent) -> Seq<char> {
    match c {
        ResponsesOutputContent::OutputText { text } => text@,
    }
}

/// An output item, by its view.
pub open spec fn item_view(item: ResponsesOutputItem) -> ItemV {
    match item {
        ResponsesOutputItem::Message { id, role, content, status } => ItemV::Message {
            id: id@,
            role: role@,
            texts: content@.map_values(|c: ResponsesOutputContent| output_text(c)),
            status: status@,
        },
        ResponsesOutputItem::FunctionCall { id, call_id, name, arguments, status } => ItemV::FunctionCall {
            id: id@,
            call_id: call_id@,
            name: name@,
            arguments: arguments@,
            status: status@,
        },
    }
}

/// A list of output items, by their views.
pub open spec fn items_view(items: Seq<ResponsesOutputItem>) -> Seq<ItemV> {
    items.map_values(|i: ResponsesOutputItem| item_view(i))
}

/// The message for assistant content that holds an image.
pub open spec fn image_output_message() -> Seq<char> {
    "assistant image output cannot be bridged to Responses API output_text"@
}

/// The output texts for assistant content, or none where a part is an image.
pub open spec fn output_texts(c: Option<ContentV>) -> Option<Seq<Seq<char>>> {
    match c {
        None => Some(Seq::empty()),
        Some(ContentV::Text(t)) => Some(seq![t]),
        Some(ContentV::Parts(ps)) => if forall|j: int| 0 <= j < ps.len() ==> ps[j] is Text {
            Some(ps.map_values(|p: PartV| p->Text_0))
        } else {
            None
        },
    }
}

/// The output content for an assistant message's content.
pub fn chat_message_content_to_response_content(content: Option<&MessageContent>) -> (r: Result<Vec<ResponsesOutputContent>, GatewayError>)
    ensures
        output_texts(
            match content {
                Some(c) => Some(content_view(*c)),
                None => None,
            },
        ) matches Some(ts) ==> (r matches Ok(v) && v@.map_values(|c: ResponsesOutputContent| output_text(c))
            == ts),
        output_texts(
            match content {
                Some(c) => Some(content_view(*c)),
                None => None,
            },
        ) is None ==> (r matches Err(GatewayError::Bridge(e)) && e@ == image_output_message()),
{
    let c = match content {
        Some(c) => c,
        None => {
            let v: Vec<ResponsesOutputContent> = Vec::new();
            proof {
                assert(v@.map_values(|c: ResponsesOutputContent| output_text(c)) =~= Seq::<Seq<char>>::empty());
            }
            return Ok(v);
        },
    };
    match c {
        MessageContent::Text(t) => {
            let mut v: Vec<ResponsesOutputContent> = Vec::new();
            v.push(ResponsesOutputContent::OutputText { text: to_owned_string(t.as_str()) });
            proof {
                assert(v@.map_values(|c: ResponsesOutputContent| output_text(c)) =~= seq![t@]);
            }
            Ok(v)
        },
        MessageContent::Parts(parts) => {
            let ghost pv = parts@.map_values(|p: ContentPart| part_view(p));
            let mut v: Vec<ResponsesOutputContent> = Vec::new();
            let mut i: usize = 0;
            while i < parts.len()
                invariant
                    0 <= i <= parts@.len(),
                    v@.len() == i,
                    pv == parts@.map_values(|p: ContentPart| part_view(p)),
                    content == Some(c),
                    content_view(*c) == ContentV::Parts(pv),
                    forall|j: int| 0 <= j < i ==> pv[j] is Text,
                    forall|j: int| 0 <= j < i ==> output_text(#[trigger] v@[j]) == pv[j]->Text_0,
                decreases parts.len() - i,
            {
                match &parts[i] {
                    ContentPart::Text { text } => {
                        v.push(ResponsesOutputContent::OutputText { text: to_owned_string(text.as_str()) });
                    },
                    ContentPart::ImageUrl { .. } => {
                        proof {
                            assert(!(pv[i as int] is Text));
                        }
                        return Err(GatewayError::Bridge(to_owned_string(
                            "assistant image output cannot be bridged to Responses API output_text",
                        )));
                    },
                }
                i += 1;
            }
            proof {
                assert(v@.map_values(|c: ResponsesOutputContent| output_text(c)) =~= pv.map_values(
                    |p: PartV| p->Text_0,
                ));
            }
            Ok(v)
        },
    }
}

/// The id of the message item at an output position.
pub open spec fn message_item_id(response_id: Seq<char>, output_index: nat) -> Seq<char> {
    response_id + "_message_"@ + decimal_spec(output_index)
}

/// The id of the message item at an output position, as
/// `<response id>_message_<index>`.
pub fn response_message_output_id(response_id: &str, output_index: usize) -> (r: String)
    ensures
        r@ == message_item_id(response_id@, output_index as nat),
{
    let head = concat(response_id, "_message_");
    let n = decimal(output_index as u64);
    concat(head.as_str(), n.as_str())
}

/// The function call items for a message's tool calls.
pub open spec fn tool_call_items(calls: Option<Vec<ToolCall>>) -> Seq<ItemV> {
    match calls {
        Some(cs) => cs@.map_values(|c: ToolCall| ItemV::FunctionCall {
            id: c.id@,
            call_id: c.id@,
            name: c.name@,
            arguments: c.arguments@,
            status: "completed"@,
        }),
        None => Seq::empty(),
    }
}

/// The output items for one choice's message at output position `n`: its
/// text content as a message item, where it has any, then its tool calls.
pub open spec fn choice_output(response_id: Seq<char>, n: nat, m: ChatMessage) -> Option<Seq<ItemV>> {
    match output_texts(opt_content_view(m.content)) {
        None => None,
        Some(texts) => Some(
            (if texts.len() > 0 {
                seq![ItemV::Message { id: message_item_id(response_id, n), role: m.role@, texts, status: "completed"@ }]
            } else {
                Seq::empty()
            }) + tool_call_items(m.tool_calls),
        ),
    }
}

/// The output items for a choice's message.
pub fn choice_message_to_response_output(response_id: &str, next_output_index: usize, message: &ChatMessage) -> (r: Result<Vec<ResponsesOutputItem>, GatewayError>)
    ensures
        choice_output(response_id@, next_output_index as nat, *message) matches Some(items) ==> (r matches Ok(v)
            && items_view(v@) == items),
        choice_output(response_id@, next_output_index as nat, *message) is None ==> (r matches Err(
            GatewayError::Bridge(e),
        ) && e@ == image_output_message()),
{
    let mut output: Vec<ResponsesOutputItem> = Vec::new();
    let content = chat_message_content_to_response_content(message.content.as_ref())?;
    let ghost texts = content@.map_values(|c: ResponsesOutputContent| output_text(c));
    if content.len() > 0 {
        let id = response_message_output_id(response_id, next_output_index);
        output.push(ResponsesOutputItem::Message {
            id,
            role: to_owned_string(message.role.as_str()),
            content,
            status: to_owned_string("completed"),
        });
    }
    let ghost head = items_view(output@);
    proof {
        assert(head =~= (if texts.len() > 0 {
            seq![ItemV::Message { id: message_item_id(response_id@, next_output_index as nat), role: message.role@, texts, status: "completed"@ }]
        } else {
            Seq::empty()
        }));
    }
    if let Some(calls) = &message.tool_calls {
        let mut i: usize = 0;
        while i < calls.len()
            invariant
                0 <= i <= calls@.len(),
                output@.len() == head.len() + i,
                message.tool_calls == Some(*calls),
                forall|j: int| 0 <= j < head.len() ==> item_view(#[trigger] output@[j]) == head[j],
                forall|j: int| 0 <= j < i ==> item_view(#[trigger] output@[head.len() + j]) == tool_call_items(message.tool_calls)[j],
            decreases calls.len() - i,
        {
            let c = &calls[i];
            output.push(ResponsesOutputItem::FunctionCall {
                id: to_owned_string(c.id.as_str()),
                call_id: to_owned_string(c.id.as_str()),
                name: to_owned_string(c.name.as_str()),
                arguments: to_owned_string(c.arguments.as_str()),
                status: to_owned_string("completed"),
            });
            i += 1;
        }
        proof {
            let tci = tool_call_items(message.tool_calls);
            assert(tci.len() == calls@.len());
            assert forall|k: int| 0 <= k < output@.len() implies items_view(output@)[k] == (head + tci)[k] by {
                if k >= head.len() {
                    let j = k - head.len();
                    assert(item_view(output@[head.len() + j]) == tci[j]);
                }
            }
            assert(items_view(output@) =~= head + tci);
        }
    } else {
        proof {
            assert(items_view(output@) =~= head + tool_call_items(message.tool_calls));
        }
    }
    Ok(output)
}

/// The output items for a list of choices, the first starting at output
/// position `n` and each next one after the items of the one before.
pub open spec fn choices_output(response_id: Seq<char>, cs: Seq<ChatChoice>, n: nat) -> Option<Seq<ItemV>>
    decreases cs.len(),
{
    if cs.len() == 0 {
        Some(Seq::empty())
    } else {
        match choice_output(response_id, n, cs[0].message) {
            None => None,
            Some(first) => match choices_output(response_id, cs.drop_first(), n + first.len()) {
                None => None,
                Some(rest) => Some(first + rest),
            },
        }
    }
}

/// Response usage from hub usage; all counts are zero where there is none.
pub open spec fn usage_from_chat(u: Option<ChatCompletionUsage>) -> ResponsesUsage {
    match u {
        Some(c) => ResponsesUsage {
            input_tokens: c.prompt_tokens,
            output_tokens: c.completion_tokens,
            total_tokens: c.total_tokens,
        },
        None => ResponsesUsage { input_tokens: 0, output_tokens: 0, total_tokens: 0 },
    }
}

/// Response usage from hub usage.
pub fn responses_usage_from_chat_usage(usage: Option<&ChatCompletionUsage>) -> (r: ResponsesUsage)
    ensures
        usage matches Some(u) ==> r.input_tokens == u.prompt_tokens && r.output_tokens == u.completion_tokens
            && r.total_tokens == u.total_tokens,
        usage is None ==> r.input_tokens == 0 && r.output_tokens == 0 && r.total_tokens == 0,
        r == usage_from_chat(
            match usage {
                Some(u) => Some(*u),
                None => None,
            },
        ),
{
    match usage {
        Some(c) => ResponsesUsage {
            input_tokens: c.prompt_tokens,
            output_tokens: c.completion_tokens,
            total_tokens: c.total_tokens,
        },
        None => ResponsesUsage { input_tokens: 0, output_tokens: 0, total_tokens: 0 },
    }
}

/// The gateway's usage record for a response's usage.
pub fn responses_usage_to_common(usage: &ResponsesUsage) -> (r: Usage)
    ensures
        r.input_tokens == Some(usage.input_tokens),
        r.output_tokens == Some(usage.output_tokens),
        r.total_tokens == Some(usage.total_tokens),
        r.input_audio_tokens is None,
        r.output_audio_tokens is None,
        r.cache_read_input_tokens is None,
        r.cache_creation_input_tokens is None,
{
    Usage {
        input_tokens: Some(usage.input_tokens),
        output_tokens: Some(usage.output_tokens),
        total_tokens: Some(usage.total_tokens),
        input_audio_tokens: None,
        output_audio_tokens: None,
        cache_read_input_tokens: None,
        cache_creation_input_tokens: None,
    }
}

/// The extras' metadata, if any.
pub open spec fn ctx_metadata(ctx: BridgeContext) -> Option<JsonV> {
    match ctx.openai_responses_extras {
        Some(e) => opt_json(e.metadata),
        None => None,
    }
}

/// The extras' previous response id, if any.
pub open spec fn ctx_previous_id(ctx: BridgeContext) -> Option<Seq<char>> {
    match ctx.openai_responses_extras {
        Some(e) => opt_view(e.previous_response_id),
        None => None,
    }
}

fn copy_metadata(ctx: &BridgeContext) -> (r: Option<JsonValue>)
    ensures
        opt_json(r) == ctx_metadata(*ctx),
{
    match &ctx.openai_responses_extras {
        Some(e) => dup_opt_json(&e.metadata),
        None => None,
    }
}

fn copy_previous_id(ctx: &BridgeContext) -> (r: Option<String>)
    ensures
        opt_view(r) == ctx_previous_id(*ctx),
{
    match &ctx.openai_responses_extras {
        Some(e) => clone_opt_string(&e.previous_response_id),
        None => None,
    }
}

proof fn lemma_choices_output_step(rid: Seq<char>, cs: Seq<ChatChoice>, i: int, n: nat)
    requires
        0 <= i < cs.len(),
    ensures
        choices_output(rid, cs.skip(i), n) == match choice_output(rid, n, cs[i].message) {
            None => None,
            Some(first) => match choices_output(rid, cs.skip(i + 1), n + first.len()) {
                None => None,
                Some(rest) => Some(first + rest),
            },
        },
{
    assert(cs.skip(i)[0] == cs[i]);
    assert(cs.skip(i).drop_first() =~= cs.skip(i + 1));
}

impl ResponsesApiFormat {
    /// Bridges a Chat Completions response back to a Responses API response.
    pub fn from_hub(resp: &ChatCompletionResponse, ctx: &BridgeContext) -> (r: Result<ResponsesApiResponse, GatewayError>)
        ensures
            choices_output(resp.id@, resp.choices@, 0) matches Some(items) ==> (r matches Ok(out) && {
                &&& out.id@ == resp.id@
                &&& out.object@ == "response"@
                &&& out.created_at == resp.created
                &&& out.model@ == resp.model@
                &&& items_view(out.output@) == items
                &&& out.status@ == "completed"@
                &&& out.usage == usage_from_chat(resp.usage)
                &&& opt_json(out.metadata) == ctx_metadata(*ctx)
                &&& opt_view(out.previous_response_id) == ctx_previous_id(*ctx)
            }),
            choices_output(resp.id@, resp.choices@, 0) is None ==> (r matches Err(GatewayError::Bridge(e)) && e@
                == image_output_message()),
    {
        let ghost cs = resp.choices@;
        let ghost rid = resp.id@;
        let mut output: Vec<ResponsesOutputItem> = Vec::new();
        let mut i: usize = 0;
        proof {
            assert(cs.skip(0) =~= cs);
            assert(items_view(output@) =~= Seq::<ItemV>::empty());
        }
        while i < resp.choices.len()
            invariant
                0 <= i <= cs.len(),
                cs == resp.choices@,
                rid == resp.id@,
                choices_output(rid, cs, 0) == match choices_output(rid, cs.skip(i as int), output@.len()) {
                    Some(rest) => Some(items_view(output@) + rest),
                    None => None,
                },
            decreases cs.len() - i,
        {
            proof {
                lemma_choices_output_step(rid, cs, i as int, output@.len());
            }
            let n = output.len();
            let items = choice_message_to_response_output(resp.id.as_str(), n, &resp.choices[i].message)?;
            let ghost before = items_view(output@);
            let ghost added = items_view(items@);
            let mut k: usize = 0;
            let ghost src = items@;
            let mut rest = items;
            assert(src.len() == rest.len());
            while rest.len() > 0
                invariant
                    src.len() <= usize::MAX,
                    output@.len() == n + k,
                    k + rest@.len() == src.len(),
                    rest@ == src.subrange(k as int, src.len() as int),
                    items_view(output@) == before + items_view(src.subrange(0, k as int)),
                    before.len() == n,
                decreases rest.len(),
            {
                let item = rest.remove(0);
                let ghost old_out = output@;
                output.push(item);
                proof {
                    assert(item == src[k as int]);
                    assert(src.subrange(0, k + 1) =~= src.subrange(0, k as int).push(src[k as int]));
                    assert(items_view(output@) =~= items_view(old_out).push(item_view(item)));
                    assert(items_view(src.subrange(0, k + 1)) =~= items_view(src.subrange(0, k as int)).push(item_view(item)));
                    assert(rest@ =~= src.subrange(k + 1, src.len() as int));
                }
                k += 1;
            }
            proof {
                assert(src.subrange(0, k as int) =~= src);
                assert(added.len() == src.len());
            }
            i += 1;
        }
        proof {
            assert(cs.skip(i as int) =~= Seq::<ChatChoice>::empty());
            assert(items_view(output@) + Seq::<ItemV>::empty() =~= items_view(output@));
        }
        Ok(ResponsesApiResponse {
            id: to_owned_string(resp.id.as_str()),
            object: to_owned_string("response"),
            created_at: resp.created,
            model: to_owned_string(resp.model.as_str()),
            output,
            status: to_owned_string("completed"),
            usage: responses_usage_from_chat_usage(resp.usage.as_ref()),
            metadata: copy_metadata(ctx),
            previous_response_id: copy_previous_id(ctx),
        })
    }

    /// The gateway's usage record for a response.
    pub fn response_usage(response: &ResponsesApiResponse) -> (r: Usage)
        ensures
            r.input_tokens == Some(response.usage.input_tokens),
            r.output_tokens == Some(response.usage.output_tokens),
            r.total_tokens == Some(response.usage.total_tokens),
    {
        responses_usage_to_common(&response.usage)
    }
}

/// The text output being streamed.
#[derive(Debug)]
struct StreamingTextOutput {
    text: String,
    output_index: usize,
}

/// A tool call being streamed.
#[derive(Debug)]
struct StreamingToolCall {
    id: Option<String>,
    name: Option<String>,
    arguments: String,
    output_index: Option<usize>,
}

/// What the stream bridge remembers between chunks.
#[derive(Debug)]
pub struct ResponsesBridgeState {
    started: bool,
    response_id: Option<String>,
    response_model: Option<String>,
    created_at: Option<u64>,
    text_output: Option<StreamingTextOutput>,
    tool_calls: Vec<(u64, StreamingToolCall)>,
    usage: Usage,
}

/// The text output being streamed, in mathematical form.
pub ghost struct TextV {
    pub text: Seq<char>,
    pub output_index: int,
}

/// A tool call being streamed, in mathematical form.
pub ghost struct ToolV {
    pub tool_index: u64,
    pub id: Option<Seq<char>>,
    pub name: Option<Seq<char>>,
    pub arguments: Seq<char>,
    pub output_index: Option<int>,
}

/// The stream bridge's state in mathematical form.
pub ghost struct StateV {
    /// Whether the response has been announced.
    pub started: bool,
    /// The response id taken from the first chunk that had one.
    pub response_id: Option<Seq<char>>,
    /// The model taken from the first chunk that named one.
    pub model: Option<Seq<char>>,
    /// The creation time taken from the first chunk.
    pub created: Option<u64>,
    /// The text output so far, if any text has come.
    pub text: Option<TextV>,
    /// The tool calls so far, in order of their tool index.
    pub tools: Seq<ToolV>,
    /// The usage reported so far.
    pub usage: Usage,
}

spec fn tool_view(p: (u64, StreamingToolCall)) -> ToolV {
    ToolV {
        tool_index: p.0,
        id: opt_view(p.1.id),
        name: opt_view(p.1.name),
        arguments: p.1.arguments@,
        output_index: match p.1.output_index {
            Some(i) => Some(i as int),
            None => None,
        },
    }
}

/// The number of output items: the tool calls, and the text output.
pub open spec fn item_count(s: StateV) -> nat {
    s.tools.len() + if s.text is Some {
        1nat
    } else {
        0nat
    }
}

/// The output position of item `j`: tool call `j`, or the text output for
/// the last item when there is one.
pub open spec fn position_of(s: StateV, j: int) -> int {
    if j < s.tools.len() {
        s.tools[j].output_index.unwrap_or(-1)
    } else {
        s.text.unwrap().output_index
    }
}

/// Whether some item sits at output position `k`.
pub open spec fn position_used(s: StateV, k: int) -> bool {
    exists|j: int| 0 <= j < item_count(s) && #[trigger] position_of(s, j) == k
}

/// The state's invariant: tool calls kept in order of tool index, each with
/// a position, and the positions of all items exactly `0..n`, one each.
pub open spec fn state_wf(s: StateV) -> bool {
    &&& item_count(s) <= usize::MAX
    &&& forall|i: int, j: int| 0 <= i < j < s.tools.len() ==> s.tools[i].tool_index < s.tools[j].tool_index
    &&& forall|j: int| 0 <= j < s.tools.len() ==> (#[trigger] s.tools[j]).output_index is Some
    &&& forall|j: int| 0 <= j < item_count(s) ==> 0 <= #[trigger] position_of(s, j) < item_count(s)
    &&& forall|i: int, j: int|
        0 <= i < item_count(s) && 0 <= j < item_count(s) && i != j ==> #[trigger] position_of(s, i)
            != #[trigger] position_of(s, j)
    &&& forall|k: int| 0 <= k < item_count(s) ==> #[trigger] position_used(s, k)
}

impl View for ResponsesBridgeState {
    type V = StateV;

    closed spec fn view(&self) -> StateV {
        StateV {
            started: self.started,
            response_id: opt_view(self.response_id),
            model: opt_view(self.response_model),
            created: self.created_at,
            text: match self.text_output {
                Some(t) => Some(TextV { text: t.text@, output_index: t.output_index as int }),
                None => None,
            },
            tools: self.tool_calls@.map_values(|p: (u64, StreamingToolCall)| tool_view(p)),
            usage: self.usage,
        }
    }
}

impl ResponsesBridgeState {
    /// The state before the first chunk.
    pub fn new() -> (r: Self)
        ensures
            state_wf(r@),
            !r@.started,
            r@.response_id is None,
            r@.model is None,
            r@.created is None,
            r@.text is None,
            r@.tools.len() == 0,
            r@.usage == Usage::empty_spec(),
    {
        let r = ResponsesBridgeState {
            started: false,
            response_id: None,
            response_model: None,
            created_at: None,
            text_output: None,
            tool_calls: Vec::new(),
            usage: Usage::empty(),
        };
        proof {
            assert(r@.tools =~= Seq::<ToolV>::empty());
        }
        r
    }
}

/// The position the next new output item takes: one past the highest
/// position in use, or 0 when there is none.
pub fn next_stream_output_index(state: &ResponsesBridgeState) -> (r: usize)
    requires
        state_wf(state@),
    ensures
        r == item_count(state@),
        forall|j: int| 0 <= j < item_count(state@) ==> #[trigger] position_of(state@, j) < r,
{
    let ghost s = state@;
    let ghost n = item_count(s);
    let ghost tl = s.tools.len() as int;
    let mut best: Option<usize> = match &state.text_output {
        Some(t) => Some(t.output_index),
        None => None,
    };
    let ghost mut wit: int = tl;
    let mut i: usize = 0;
    while i < state.tool_calls.len()
        invariant
            0 <= i <= state.tool_calls@.len(),
            s == state@,
            tl == s.tools.len(),
            tl == state.tool_calls@.len(),
            n == item_count(s),
            state_wf(s),
            best is None ==> s.text is None && forall|j: int| 0 <= j < i ==> s.tools[j].output_index is None,
            best matches Some(b) ==> {
                &&& (0 <= wit < i || (wit == tl && s.text is Some))
                &&& position_of(s, wit) == b
                &&& forall|j: int| (0 <= j < i || (j == tl && s.text is Some)) ==> position_of(s, j) <= b
            },
        decreases state.tool_calls.len() - i,
    {
        proof {
            assert(s.tools[i as int] == tool_view(state.tool_calls@[i as int]));
        }
        if let Some(ix) = state.tool_calls[i].1.output_index {
            match best {
                Some(b) => {
                    if ix > b {
                        best = Some(ix);
                        proof {
                            wit = i as int;
                        }
                    }
                },
                None => {
                    best = Some(ix);
                    proof {
                        wit = i as int;
                    }
                },
            }
        }
        i += 1;
    }
    match best {
        Some(b) => {
            proof {
                assert(0 <= wit < n);
                assert(b < n);
                assert(position_used(s, n - 1));
                let w = choose|j: int| 0 <= j < n && position_of(s, j) == n - 1;
                assert(position_of(s, w) <= b);
            }
            b + 1
        },
        None => {
            proof {
                if n > 0 {
                    assert(s.tools[0].output_index is Some);
                }
            }
            0
        },
    }
}

/// The id a streamed response goes by: the first id a chunk gave, or
/// `response`.
pub open spec fn base_id(s: StateV) -> Seq<char> {
    s.response_id.unwrap_or("response"@)
}

/// The status of an item or response.
pub open spec fn status_word(completed: bool) -> Seq<char> {
    if completed {
        "completed"@
    } else {
        "in_progress"@
    }
}

/// The message item of the streamed text.
pub open spec fn text_item(s: StateV, completed: bool) -> ItemV {
    ItemV::Message {
        id: message_item_id(base_id(s), s.text.unwrap().output_index as nat),
        role: "assistant"@,
        texts: seq![s.text.unwrap().text],
        status: status_word(completed),
    }
}

/// The call id of a streamed tool call: the one the provider sent, or one
/// made from the response id and the tool index.
pub open spec fn streamed_call_id(s: StateV, t: ToolV) -> Seq<char> {
    match t.id {
        Some(i) => i,
        None => base_id(s) + "_call_"@ + decimal_spec(t.tool_index as nat),
    }
}

/// The function call item of a streamed tool call.
pub open spec fn tool_item(s: StateV, t: ToolV, completed: bool) -> ItemV {
    ItemV::FunctionCall {
        id: streamed_call_id(s, t),
        call_id: streamed_call_id(s, t),
        name: match t.name {
            Some(n) => n,
            None => "tool_"@ + decimal_spec(t.tool_index as nat),
        },
        arguments: t.arguments,
        status: status_word(completed),
    }
}

/// The output item `j` of the state: a tool call, or the text output.
pub open spec fn item_at(s: StateV, j: int, completed: bool) -> ItemV {
    if j < s.tools.len() {
        tool_item(s, s.tools[j], completed)
    } else {
        text_item(s, completed)
    }
}

/// The items of the state in order of their output position.
pub open spec fn ordered_output(s: StateV, completed: bool) -> Seq<ItemV> {
    Seq::new(
        item_count(s),
        |k: int| item_at(s, choose|j: int| 0 <= j < item_count(s) && position_of(s, j) == k, completed),
    )
}

/// A response in mathematical form.
pub ghost struct ResponseV {
    pub id: Seq<char>,
    pub object: Seq<char>,
    pub created_at: u64,
    pub model: Seq<char>,
    pub output: Seq<ItemV>,
    pub status: Seq<char>,
    pub usage: ResponsesUsage,
    pub metadata: Option<JsonV>,
    pub previous_response_id: Option<Seq<char>>,
}

/// A response, by its view.
pub open spec fn response_view(r: ResponsesApiResponse) -> ResponseV {
    ResponseV {
        id: r.id@,
        object: r.object@,
        created_at: r.created_at,
        model: r.model@,
        output: items_view(r.output@),
        status: r.status@,
        usage: r.usage,
        metadata: opt_json(r.metadata),
        previous_response_id: opt_view(r.previous_response_id),
    }
}

/// The response as the stream state shows it, with the given status.
pub open spec fn partial_response(
    s: StateV,
    metadata: Option<JsonV>,
    previous: Option<Seq<char>>,
    status: Seq<char>,
) -> ResponseV {
    ResponseV {
        id: base_id(s),
        object: "response"@,
        created_at: s.created.unwrap_or(0),
        model: s.model.unwrap_or(Seq::empty()),
        output: ordered_output(s, status == "completed"@),
        status,
        usage: ResponsesUsage {
            input_tokens: s.usage.input_tokens.unwrap_or(0),
            output_tokens: s.usage.output_tokens.unwrap_or(0),
            total_tokens: resolved_total_spec(s.usage).unwrap_or(0),
        },
        metadata,
        previous_response_id: previous,
    }
}

fn status_string(completed: bool) -> (r: String)
    ensures
        r@ == status_word(completed),
{
    if completed {
        to_owned_string("completed")
    } else {
        to_owned_string("in_progress")
    }
}

fn base_id_str(state: &ResponsesBridgeState) -> (r: &str)
    ensures
        r@ == base_id(state@),
{
    match &state.response_id {
        Some(id) => id.as_str(),
        None => "response",
    }
}

/// The message item of the streamed text.
fn streaming_message_output_item(state: &ResponsesBridgeState, completed: bool) -> (r: ResponsesOutputItem)
    requires
        state@.text is Some,
    ensures
        item_view(r) == text_item(state@, completed),
{
    let t = match &state.text_output {
        Some(t) => t,
        None => {
            proof {
                assert(false);
            }
            return ResponsesOutputItem::Message {
                id: String::new(),
                role: String::new(),
                content: Vec::new(),
                status: String::new(),
            };
        },
    };
    let mut content: Vec<ResponsesOutputContent> = Vec::new();
    content.push(ResponsesOutputContent::OutputText { text: to_owned_string(t.text.as_str()) });
    let r = ResponsesOutputItem::Message {
        id: response_message_output_id(base_id_str(state), t.output_index),
        role: to_owned_string("assistant"),
        content,
        status: status_string(completed),
    };
    proof {
        assert(content@.map_values(|c: ResponsesOutputContent| output_text(c)) =~= seq![t.text@]);
    }
    r
}

/// The function call item of the tool call at position `j` of the state.
fn streaming_function_call_output_item(state: &ResponsesBridgeState, j: usize, completed: bool) -> (r: ResponsesOutputItem)
    requires
        j < state@.tools.len(),
    ensures
        item_view(r) == tool_item(state@, state@.tools[j as int], completed),
{
    let (tool_index, call) = &state.tool_calls[j];
    proof {
        assert(state@.tools[j as int] == tool_view(state.tool_calls@[j as int]));
    }
    let id = match &call.id {
        Some(i) => to_owned_string(i.as_str()),
        None => {
            let head = concat(base_id_str(state), "_call_");
            let n = decimal(*tool_index);
            concat(head.as_str(), n.as_str())
        },
    };
    let name = match &call.name {
        Some(n) => to_owned_string(n.as_str()),
        None => {
            let n = decimal(*tool_index);
            concat("tool_", n.as_str())
        },
    };
    ResponsesOutputItem::FunctionCall {
        id: to_owned_string(id.as_str()),
        call_id: id,
        name,
        arguments: to_owned_string(call.arguments.as_str()),
        status: status_string(completed),
    }
}

/// The position in the state of the tool call at output position `k`.
fn find_tool_at(state: &ResponsesBridgeState, k: usize) -> (r: Option<usize>)
    ensures
        r matches Some(i) ==> i < state@.tools.len() && state@.tools[i as int].output_index == Some(k as int),
        r is None ==> forall|q: int| 0 <= q < state@.tools.len() ==> state@.tools[q].output_index != Some(k as int),
{
    let mut i: usize = 0;
    while i < state.tool_calls.len()
        invariant
            0 <= i <= state.tool_calls@.len(),
            state@.tools.len() == state.tool_calls@.len(),
            forall|q: int| 0 <= q < i ==> state@.tools[q].output_index != Some(k as int),
        decreases state.tool_calls.len() - i,
    {
        proof {
            assert(state@.tools[i as int] == tool_view(state.tool_calls@[i as int]));
        }
        match state.tool_calls[i].1.output_index {
            Some(ix) => {
                if ix == k {
                    return Some(i);
                }
            },
            None => {},
        }
        i += 1;
    }
    None
}

/// The response as the stream state shows it, with the given status.
pub fn partial_stream_response(state: &ResponsesBridgeState, ctx: &BridgeContext, status: &str) -> (r: ResponsesApiResponse)
    requires
        state_wf(state@),
    ensures
        response_view(r) == partial_response(state@, ctx_metadata(*ctx), ctx_previous_id(*ctx), status@),
{
    let ghost s = state@;
    let ghost n = item_count(s);
    let completed = str_eq(status, "completed");
    let total = next_stream_output_index(state);
    let mut output: Vec<ResponsesOutputItem> = Vec::new();
    let mut k: usize = 0;
    while k < total
        invariant
            s == state@,
            state_wf(s),
            n == item_count(s),
            total == n,
            0 <= k <= total,
            output@.len() == k,
            completed == (status@ == "completed"@),
            forall|p: int| 0 <= p < k ==> item_view(#[trigger] output@[p]) == ordered_output(s, completed)[p],
        decreases total - k,
    {
        let ghost kk = k as int;
        proof {
            assert(position_used(s, kk));
        }
        let ghost j0 = choose|j: int| 0 <= j < n && position_of(s, j) == kk;
        proof {
            assert forall|j: int| 0 <= j < n && position_of(s, j) == kk implies j == j0 by {
                if j != j0 {
                    assert(position_of(s, j) != position_of(s, j0));
                }
            }
            assert(ordered_output(s, completed)[kk] == item_at(s, j0, completed));
        }
        let mut found = false;
        if let Some(t) = &state.text_output {
            if t.output_index == k {
                proof {
                    assert(position_of(s, s.tools.len() as int) == kk);
                    assert(j0 == s.tools.len());
                }
                output.push(streaming_message_output_item(state, completed));
                found = true;
            }
        }
        if !found {
            match find_tool_at(state, k) {
                Some(i) => {
                    proof {
                        assert(position_of(s, i as int) == kk);
                        if i as int != j0 {
                            assert(position_of(s, i as int) != position_of(s, j0));
                        }
                    }
                    output.push(streaming_function_call_output_item(state, i, completed));
                },
                None => {
                    proof {
                        if j0 < s.tools.len() {
                            assert(position_of(s, j0) != kk);
                        }
                        assert(false);
                    }
                },
            }
        }
        k += 1;
    }
    proof {
        assert(items_view(output@) =~= ordered_output(s, completed));
    }
    let total_tokens = match state.usage.resolved_total_tokens() {
        Some(t) => t,
        None => 0,
    };
    ResponsesApiResponse {
        id: to_owned_string(base_id_str(state)),
        object: to_owned_string("response"),
        created_at: match state.created_at {
            Some(c) => c,
            None => 0,
        },
        model: match &state.response_model {
            Some(m) => to_owned_string(m.as_str()),
            None => String::new(),
        },
        output,
        status: to_owned_string(status),
        usage: ResponsesUsage {
            input_tokens: match state.usage.input_tokens {
                Some(t) => t,
                None => 0,
            },
            output_tokens: match state.usage.output_tokens {
                Some(t) => t,
                None => 0,
            },
            total_tokens,
        },
        metadata: copy_metadata(ctx),
        previous_response_id: copy_previous_id(ctx),
    }
}

/// An event of a streamed Responses API response.
#[derive(Debug)]
pub enum ResponsesApiStreamEvent {
    ResponseCreated { response: ResponsesApiResponse },
    ResponseInProgress { response: ResponsesApiResponse },
    OutputItemAdded { output_index: usize, item: ResponsesOutputItem },
    ContentPartAdded { output_index: usize, content_index: usize, part: ResponsesOutputContent },
    OutputTextDelta { output_index: usize, content_index: usize, delta: String },
    FunctionCallArgumentsDelta { output_index: usize, delta: String },
    OutputTextDone { output_index: usize, content_index: usize, text: String },
    ContentPartDone { output_index: usize, content_index: usize, part: ResponsesOutputContent },
    OutputItemDone { output_index: usize, item: ResponsesOutputItem },
    FunctionCallArgumentsDone { output_index: usize, arguments: String },
    ResponseCompleted { response: ResponsesApiResponse },
}

/// A stream event in mathematical form.
pub ghost enum EventV {
    Created(ResponseV),
    InProgress(ResponseV),
    ItemAdded(int, ItemV),
    PartAdded(int, int, Seq<char>),
    TextDelta(int, int, Seq<char>),
    ArgumentsDelta(int, Seq<char>),
    TextDone(int, int, Seq<char>),
    PartDone(int, int, Seq<char>),
    ItemDone(int, ItemV),
    ArgumentsDone(int, Seq<char>),
    Completed(ResponseV),
}

/// A stream event, by its view.
pub open spec fn event_view(e: ResponsesApiStreamEvent) -> EventV {
    match e {
        ResponsesApiStreamEvent::ResponseCreated { response } => EventV::Created(response_view(response)),
        ResponsesApiStreamEvent::ResponseInProgress { response } => EventV::InProgress(response_view(response)),
        ResponsesApiStreamEvent::OutputItemAdded { output_index, item } => EventV::ItemAdded(
            output_index as int,
            item_view(item),
        ),
        ResponsesApiStreamEvent::ContentPartAdded { output_index, content_index, part } => EventV::PartAdded(
            output_index as int,
            content_index as int,
            output_text(part),
        ),
        ResponsesApiStreamEvent::OutputTextDelta { output_index, content_index, delta } => EventV::TextDelta(
            output_index as int,
            content_index as int,
            delta@,
        ),
        ResponsesApiStreamEvent::FunctionCallArgumentsDelta { output_index, delta } => EventV::ArgumentsDelta(
            output_index as int,
            delta@,
        ),
        ResponsesApiStreamEvent::OutputTextDone { output_index, content_index, text } => EventV::TextDone(
            output_index as int,
            content_index as int,
            text@,
        ),
        ResponsesApiStreamEvent::ContentPartDone { output_index, content_index, part } => EventV::PartDone(
            output_index as int,
            content_index as int,
            output_text(part),
        ),
        ResponsesApiStreamEvent::OutputItemDone { output_index, item } => EventV::ItemDone(
            output_index as int,
            item_view(item),
        ),
        ResponsesApiStreamEvent::FunctionCallArgumentsDone { output_index, arguments } => EventV::ArgumentsDone(
            output_index as int,
            arguments@,
        ),
        ResponsesApiStreamEvent::ResponseCompleted { response } => EventV::Completed(response_view(response)),
    }
}

/// A list of stream events, by their views.
pub open spec fn events_view(es: Seq<ResponsesApiStreamEvent>) -> Seq<EventV> {
    es.map_values(|e: ResponsesApiStreamEvent| event_view(e))
}

/// The SSE event name of a stream event.
pub open spec fn event_type_spec(e: ResponsesApiStreamEvent) -> Seq<char> {
    match e {
        ResponsesApiStreamEvent::ResponseCreated { .. } => "response.created"@,
        ResponsesApiStreamEvent::ResponseInProgress { .. } => "response.in_progress"@,
        ResponsesApiStreamEvent::OutputItemAdded { .. } => "response.output_item.added"@,
        ResponsesApiStreamEvent::ContentPartAdded { .. } => "response.content_part.added"@,
        ResponsesApiStreamEvent::OutputTextDelta { .. } => "response.output_text.delta"@,
        ResponsesApiStreamEvent::FunctionCallArgumentsDelta { .. } => "response.function_call_arguments.delta"@,
        ResponsesApiStreamEvent::OutputTextDone { .. } => "response.output_text.done"@,
        ResponsesApiStreamEvent::ContentPartDone { .. } => "response.content_part.done"@,
        ResponsesApiStreamEvent::OutputItemDone { .. } => "response.output_item.done"@,
        ResponsesApiStreamEvent::FunctionCallArgumentsDone { .. } => "response.function_call_arguments.done"@,
        ResponsesApiStreamEvent::ResponseCompleted { .. } => "response.completed"@,
    }
}

impl ResponsesApiStreamEvent {
    /// The SSE event name of this event.
    pub fn event_type(&self) -> (r: &'static str)
        ensures
            r@ == event_type_spec(*self),
    {
        match self {
            ResponsesApiStreamEvent::ResponseCreated { .. } => "response.created",
            ResponsesApiStreamEvent::ResponseInProgress { .. } => "response.in_progress",
            ResponsesApiStreamEvent::OutputItemAdded { .. } => "response.output_item.added",
            ResponsesApiStreamEvent::ContentPartAdded { .. } => "response.content_part.added",
            ResponsesApiStreamEvent::OutputTextDelta { .. } => "response.output_text.delta",
            ResponsesApiStreamEvent::FunctionCallArgumentsDelta { .. } => "response.function_call_arguments.delta",
            ResponsesApiStreamEvent::OutputTextDone { .. } => "response.output_text.done",
            ResponsesApiStreamEvent::ContentPartDone { .. } => "response.content_part.done",
            ResponsesApiStreamEvent::OutputItemDone { .. } => "response.output_item.done",
            ResponsesApiStreamEvent::FunctionCallArgumentsDone { .. } => "response.function_call_arguments.done",
            ResponsesApiStreamEvent::ResponseCompleted { .. } => "response.completed",
        }
    }
}

/// A fragment of a streamed tool call in mathematical form.
pub ghost struct FragmentV {
    pub index: u64,
    pub id: Option<Seq<char>>,
    pub name: Option<Seq<char>>,
    pub arguments: Option<Seq<char>>,
}

/// A streamed tool call fragment, by its view.
pub open spec fn fragment_view(f: ChunkToolCall) -> FragmentV {
    FragmentV { index: f.index, id: opt_view(f.id), name: opt_view(f.name), arguments: opt_view(f.arguments) }
}

/// A tool call after a fragment: id and name replaced where the fragment
/// has them, the argument text extended.
pub open spec fn merge_tool(t: ToolV, f: FragmentV) -> ToolV {
    ToolV {
        tool_index: t.tool_index,
        id: if f.id is Some {
            f.id
        } else {
            t.id
        },
        name: if f.name is Some {
            f.name
        } else {
            t.name
        },
        arguments: t.arguments + f.arguments.unwrap_or(Seq::empty()),
        output_index: t.output_index,
    }
}

/// `tools`, kept in order of tool index, with `t` added.
pub open spec fn sorted_insert(tools: Seq<ToolV>, t: ToolV) -> Seq<ToolV>
    decreases tools.len(),
{
    if tools.len() == 0 {
        seq![t]
    } else if tools[0].tool_index > t.tool_index {
        seq![t] + tools
    } else {
        seq![tools[0]] + sorted_insert(tools.drop_first(), t)
    }
}

/// The position of the tool call with tool index `k`, if there is one.
pub open spec fn find_tool(tools: Seq<ToolV>, k: u64) -> Option<int> {
    if exists|j: int| 0 <= j < tools.len() && tools[j].tool_index == k {
        Some(choose|j: int| 0 <= j < tools.len() && tools[j].tool_index == k)
    } else {
        None
    }
}

/// The argument delta event for a fragment, where it carries arguments.
pub open spec fn arguments_events(output_index: int, f: FragmentV) -> Seq<EventV> {
    match f.arguments {
        Some(a) => if a.len() > 0 {
            seq![EventV::ArgumentsDelta(output_index, a)]
        } else {
            Seq::empty()
        },
        None => Seq::empty(),
    }
}

/// The state and events after one tool call fragment: a known tool call is
/// extended; a new one takes the next output position and is announced.
pub open spec fn tool_step(s: StateV, f: FragmentV) -> (StateV, Seq<EventV>) {
    match find_tool(s.tools, f.index) {
        Some(j) => {
            let ix = s.tools[j].output_index.unwrap();
            (StateV { tools: s.tools.update(j, merge_tool(s.tools[j], f)), ..s }, arguments_events(ix, f))
        },
        None => {
            let ix = item_count(s) as int;
            let nt = merge_tool(
                ToolV { tool_index: f.index, id: None, name: None, arguments: Seq::empty(), output_index: Some(ix) },
                f,
            );
            let s2 = StateV { tools: sorted_insert(s.tools, nt), ..s };
            (s2, seq![EventV::ItemAdded(ix, tool_item(s2, nt, false))] + arguments_events(ix, f))
        },
    }
}

proof fn lemma_sorted_insert(tools: Seq<ToolV>, t: ToolV, q: int)
    requires
        0 <= q <= tools.len(),
        forall|i: int| 0 <= i < q ==> tools[i].tool_index < t.tool_index,
        forall|i: int| q <= i < tools.len() ==> tools[i].tool_index > t.tool_index,
    ensures
        sorted_insert(tools, t) == tools.insert(q, t),
    decreases tools.len(),
{
    if tools.len() == 0 {
        assert(tools.insert(q, t) =~= seq![t]);
    } else if q == 0 {
        assert(tools.insert(q, t) =~= seq![t] + tools);
    } else {
        lemma_sorted_insert(tools.drop_first(), t, q - 1);
        assert(tools.insert(q, t) =~= seq![tools[0]] + tools.drop_first().insert(q - 1, t));
    }
}

/// A state with one more item keeps the invariant when the new item takes
/// position `n` and the old items map one for one onto the others.
proof fn lemma_wf_add(s: StateV, t: StateV, fresh: int, f: spec_fn(int) -> int, g: spec_fn(int) -> int)
    requires
        state_wf(s),
        item_count(t) == item_count(s) + 1,
        item_count(t) <= usize::MAX,
        0 <= fresh < item_count(t),
        position_of(t, fresh) == item_count(s),
        forall|j: int|
            0 <= j < item_count(s) ==> 0 <= #[trigger] f(j) < item_count(t) && f(j) != fresh && position_of(t, f(j))
                == position_of(s, j),
        forall|i: int| 0 <= i < item_count(t) && i != fresh ==> 0 <= #[trigger] g(i) < item_count(s) && f(g(i)) == i,
        forall|i: int, j: int| 0 <= i < j < t.tools.len() ==> t.tools[i].tool_index < t.tools[j].tool_index,
        forall|j: int| 0 <= j < t.tools.len() ==> (#[trigger] t.tools[j]).output_index is Some,
    ensures
        state_wf(t),
{
    let n = item_count(s);
    assert forall|i: int| 0 <= i < item_count(t) implies 0 <= #[trigger] position_of(t, i) < item_count(t) by {
        if i != fresh {
            let j = g(i);
            assert(position_of(t, f(j)) == position_of(s, j));
        }
    }
    assert forall|a: int, b: int|
        0 <= a < item_count(t) && 0 <= b < item_count(t) && a != b implies #[trigger] position_of(t, a)
        != #[trigger] position_of(t, b) by {
        if a != fresh && b != fresh {
            let ja = g(a);
            let jb = g(b);
            assert(position_of(t, f(ja)) == position_of(s, ja));
            assert(position_of(t, f(jb)) == position_of(s, jb));
            assert(position_of(s, ja) != position_of(s, jb));
        } else if a != fresh {
            let ja = g(a);
            assert(position_of(t, f(ja)) == position_of(s, ja));
        } else if b != fresh {
            let jb = g(b);
            assert(position_of(t, f(jb)) == position_of(s, jb));
        }
    }
    assert forall|k: int| 0 <= k < item_count(t) implies #[trigger] position_used(t, k) by {
        if k < n {
            assert(position_used(s, k));
            let j = choose|j: int| 0 <= j < n && #[trigger] position_of(s, j) == k;
            assert(position_of(t, f(j)) == k);
        } else {
            assert(position_of(t, fresh) == k);
        }
    }
}

/// A state whose items keep their positions keeps the invariant.
proof fn lemma_wf_same_positions(s: StateV, t: StateV)
    requires
        state_wf(s),
        item_count(t) == item_count(s),
        forall|j: int| 0 <= j < item_count(s) ==> #[trigger] position_of(t, j) == position_of(s, j),
        forall|i: int, j: int| 0 <= i < j < t.tools.len() ==> t.tools[i].tool_index < t.tools[j].tool_index,
        forall|j: int| 0 <= j < t.tools.len() ==> (#[trigger] t.tools[j]).output_index is Some,
    ensures
        state_wf(t),
{
    assert forall|k: int| 0 <= k < item_count(t) implies #[trigger] position_used(t, k) by {
        assert(position_used(s, k));
        let j = choose|j: int| 0 <= j < item_count(s) && #[trigger] position_of(s, j) == k;
        assert(position_of(t, j) == k);
    }
    assert forall|a: int, b: int|
        0 <= a < item_count(t) && 0 <= b < item_count(t) && a != b implies #[trigger] position_of(t, a)
        != #[trigger] position_of(t, b) by {
        assert(position_of(t, a) == position_of(s, a));
        assert(position_of(t, b) == position_of(s, b));
    }
}

/// Folds a fragment into a tool call: id and name replaced where the
/// fragment has them, the argument text extended.
fn merge_streaming_tool_call(call: &mut StreamingToolCall, fragment: &ChunkToolCall)
    ensures
        forall|k: u64| tool_view((k, *final(call))) == merge_tool(tool_view((k, *old(call))), fragment_view(*fragment)),
{
    if let Some(id) = &fragment.id {
        call.id = Some(to_owned_string(id.as_str()));
    }
    if let Some(name) = &fragment.name {
        call.name = Some(to_owned_string(name.as_str()));
    }
    if let Some(arguments) = &fragment.arguments {
        call.arguments = concat(call.arguments.as_str(), arguments.as_str());
    }
    proof {
        if fragment.arguments is None {
            assert(old(call).arguments@ + Seq::<char>::empty() =~= old(call).arguments@);
        }
    }
}

fn copy_call(call: &StreamingToolCall) -> (r: StreamingToolCall)
    ensures
        forall|k: u64| tool_view((k, r)) == tool_view((k, *call)),
{
    StreamingToolCall {
        id: clone_opt_string(&call.id),
        name: clone_opt_string(&call.name),
        arguments: to_owned_string(call.arguments.as_str()),
        output_index: call.output_index,
    }
}

fn arguments_delta_event(output_index: usize, fragment: &ChunkToolCall, events: &mut Vec<ResponsesApiStreamEvent>)
    ensures
        events_view(final(events)@) == events_view(old(events)@) + arguments_events(
            output_index as int,
            fragment_view(*fragment),
        ),
{
    let ghost before = events@;
    if let Some(a) = &fragment.arguments {
        if a.as_str().unicode_len() > 0 {
            events.push(ResponsesApiStreamEvent::FunctionCallArgumentsDelta {
                output_index,
                delta: to_owned_string(a.as_str()),
            });
            proof {
                assert(events_view(events@) =~= events_view(before) + arguments_events(
                    output_index as int,
                    fragment_view(*fragment),
                ));
            }
            return;
        }
    }
    proof {
        assert(events_view(events@) =~= events_view(before) + arguments_events(
            output_index as int,
            fragment_view(*fragment),
        ));
    }
}

/// Applies one streamed tool call fragment to the state and adds its events.
#[verifier::spinoff_prover]
#[verifier::rlimit(40)]
fn apply_tool_fragment(state: &mut ResponsesBridgeState, fragment: &ChunkToolCall, events: &mut Vec<ResponsesApiStreamEvent>)
    requires
        state_wf(old(state)@),
        item_count(old(state)@) < usize::MAX,
    ensures
        state_wf(final(state)@),
        final(state)@ == tool_step(old(state)@, fragment_view(*fragment)).0,
        events_view(final(events)@) == events_view(old(events)@) + tool_step(old(state)@, fragment_view(*fragment)).1,
{
    let ghost s = state@;
    let ghost fv = fragment_view(*fragment);
    let mut q: usize = 0;
    while q < state.tool_calls.len()
        invariant
            0 <= q <= state.tool_calls@.len(),
            s == state@,
            state_wf(s),
            s.tools.len() == state.tool_calls@.len(),
            forall|i: int| 0 <= i < q ==> s.tools[i].tool_index < fragment.index,
        ensures
            0 <= q <= s.tools.len(),
            forall|i: int| 0 <= i < q ==> s.tools[i].tool_index < fragment.index,
            q < s.tools.len() ==> s.tools[q as int].tool_index >= fragment.index,
        decreases state.tool_calls.len() - q,
    {
        proof {
            assert(s.tools[q as int] == tool_view(state.tool_calls@[q as int]));
        }
        if state.tool_calls[q].0 >= fragment.index {
            break;
        }
        q += 1;
    }
    proof {
        if q < s.tools.len() {
            assert(s.tools[q as int] == tool_view(state.tool_calls@[q as int]));
        }
    }
    if q < state.tool_calls.len() && state.tool_calls[q].0 == fragment.index {
        proof {
            assert(s.tools[q as int] == tool_view(state.tool_calls@[q as int]));
            assert forall|j: int| 0 <= j < s.tools.len() && s.tools[j].tool_index == fragment.index implies j == q by {
                if j < q {
                    assert(s.tools[j].tool_index < fragment.index);
                } else if j > q {
                    assert(s.tools[q as int].tool_index < s.tools[j].tool_index);
                }
            }
            assert(find_tool(s.tools, fragment.index) == Some(q as int));
        }
        let k = state.tool_calls[q].0;
        let mut call = copy_call(&state.tool_calls[q].1);
        merge_streaming_tool_call(&mut call, fragment);
        let ix = match call.output_index {
            Some(ix) => ix,
            None => {
                proof {
                    assert(s.tools[q as int].output_index is Some);
                }
                0
            },
        };
        state.tool_calls.set(q, (k, call));
        proof {
            assert(state@.tools =~= s.tools.update(q as int, merge_tool(s.tools[q as int], fv)));
            assert(state@ == tool_step(s, fv).0);
            lemma_wf_same_positions(s, state@);
        }
        arguments_delta_event(ix, fragment, events);
    } else {
        proof {
            assert forall|j: int| 0 <= j < s.tools.len() implies s.tools[j].tool_index != fragment.index by {
                if j >= q {
                    if j > q {
                        assert(s.tools[q as int].tool_index < s.tools[j].tool_index);
                    }
                }
            }
            assert(find_tool(s.tools, fragment.index) is None);
        }
        let ix = next_stream_output_index(state);
        let mut call = StreamingToolCall { id: None, name: None, arguments: String::new(), output_index: Some(ix) };
        let ghost blank = tool_view((fragment.index, call));
        merge_streaming_tool_call(&mut call, fragment);
        let ghost nt = tool_view((fragment.index, call));
        state.tool_calls.insert(q, (fragment.index, call));
        proof {
            assert forall|i: int| q <= i < s.tools.len() implies s.tools[i].tool_index > fragment.index by {
                if i > q {
                    assert(s.tools[q as int].tool_index < s.tools[i].tool_index);
                }
            }
            lemma_sorted_insert(s.tools, nt, q as int);
            assert(state@.tools =~= s.tools.insert(q as int, nt));
            assert(state@ == tool_step(s, fv).0);
            let t = state@;
            let f = |j: int| if j < q {
                j
            } else {
                j + 1
            };
            assert forall|j: int|
                0 <= j < item_count(s) implies 0 <= #[trigger] f(j) < item_count(t) && f(j) != q && position_of(
                t,
                f(j),
            ) == position_of(s, j) by {
                if j < q {
                    assert(t.tools[j] == s.tools[j]);
                } else if j < s.tools.len() {
                    assert(t.tools[j + 1] == s.tools[j]);
                }
            }
            let g = |i: int| if i < q {
                i
            } else {
                i - 1
            };
            assert forall|i: int| 0 <= i < item_count(t) && i != q implies 0 <= #[trigger] g(i) < item_count(s) && f(g(i))
                == i by {}
            assert forall|a: int, b: int| 0 <= a < b < t.tools.len() implies t.tools[a].tool_index < t.tools[b].tool_index by {
                if a < q && b < q {
                    assert(t.tools[a] == s.tools[a] && t.tools[b] == s.tools[b]);
                } else if a < q && b == q {
                    assert(t.tools[a] == s.tools[a]);
                } else if a < q && b > q {
                    assert(t.tools[a] == s.tools[a] && t.tools[b] == s.tools[b - 1]);
                } else if a == q {
                    assert(t.tools[b] == s.tools[b - 1]);
                } else {
                    assert(t.tools[a] == s.tools[a - 1] && t.tools[b] == s.tools[b - 1]);
                }
            }
            assert forall|j: int| 0 <= j < t.tools.len() implies (#[trigger] t.tools[j]).output_index is Some by {
                if j < q {
                    assert(t.tools[j] == s.tools[j]);
                } else if j > q {
                    assert(t.tools[j] == s.tools[j - 1]);
                }
            }
            lemma_wf_add(s, t, q as int, f, g);
        }
        let ghost before = events@;
        let item = streaming_function_call_output_item(state, q, false);
        events.push(ResponsesApiStreamEvent::OutputItemAdded { output_index: ix, item });
        proof {
            assert(state@.tools[q as int] == nt);
        }
        arguments_delta_event(ix, fragment, events);
        proof {
            assert(events_view(events@) =~= events_view(before) + tool_step(s, fv).1);
        }
    }
}

/// The state after a chunk's metadata and usage: the first id, model and
/// creation time are kept, and reported usage replaces what was known.
pub open spec fn chunk_metadata(s: StateV, c: ChatCompletionChunk) -> StateV {
    StateV {
        response_id: if s.response_id is None && c.id@.len() > 0 {
            Some(c.id@)
        } else {
            s.response_id
        },
        model: if s.model is None && c.model@.len() > 0 {
            Some(c.model@)
        } else {
            s.model
        },
        created: if s.created is None {
            Some(c.created)
        } else {
            s.created
        },
        usage: match c.usage {
            Some(u) => Usage {
                input_tokens: Some(u.prompt_tokens),
                output_tokens: Some(u.completion_tokens),
                total_tokens: Some(u.total_tokens),
                ..s.usage
            },
            None => s.usage,
        },
        ..s
    }
}

/// Whether the chunk is the one that announces the response.
pub open spec fn announces(s: StateV, c: ChatCompletionChunk) -> bool {
    !s.started && (c.choices@.len() > 0 || c.usage is Some)
}

/// The state and events after streamed text `content`: the first text
/// opens a message item at the next output position.
pub open spec fn text_step(s: StateV, content: Seq<char>) -> (StateV, Seq<EventV>) {
    if content.len() == 0 {
        (s, Seq::empty())
    } else {
        match s.text {
            Some(t) => (
                StateV { text: Some(TextV { text: t.text + content, output_index: t.output_index }), ..s },
                seq![EventV::TextDelta(t.output_index, 0, content)],
            ),
            None => {
                let ix = item_count(s) as int;
                let opened = StateV { text: Some(TextV { text: Seq::empty(), output_index: ix }), ..s };
                (
                    StateV { text: Some(TextV { text: content, output_index: ix }), ..s },
                    seq![
                        EventV::ItemAdded(ix, text_item(opened, false)),
                        EventV::PartAdded(ix, 0, Seq::empty()),
                        EventV::TextDelta(ix, 0, content),
                    ],
                )
            },
        }
    }
}

/// The state and events after a list of tool call fragments, in order.
pub open spec fn tool_steps(s: StateV, fs: Seq<FragmentV>) -> (StateV, Seq<EventV>)
    decreases fs.len(),
{
    if fs.len() == 0 {
        (s, Seq::empty())
    } else {
        let (s1, e1) = tool_step(s, fs[0]);
        let (s2, e2) = tool_steps(s1, fs.drop_first());
        (s2, e1 + e2)
    }
}

/// The fragments of a delta's tool calls.
pub open spec fn fragments(calls: Option<Vec<ChunkToolCall>>) -> Seq<FragmentV> {
    match calls {
        Some(v) => v@.map_values(|f: ChunkToolCall| fragment_view(f)),
        None => Seq::empty(),
    }
}

/// The message for a chunk with more than one choice.
pub open spec fn single_choice_message() -> Seq<char> {
    "Responses API stream bridge only supports a single chat choice"@
}

/// The message for a chunk whose choice is not the first.
pub open spec fn choice_index_message() -> Seq<char> {
    "Responses API stream bridge only supports choice index 0"@
}

/// The state after the chunk's metadata, with the response announced when
/// this chunk announces it.
pub open spec fn announced_state(s: StateV, c: ChatCompletionChunk) -> StateV {
    StateV { started: s.started || announces(s, c), ..chunk_metadata(s, c) }
}

/// The events that announce the response, when this chunk announces it.
pub open spec fn start_events(s: StateV, c: ChatCompletionChunk, md: Option<JsonV>, prev: Option<Seq<char>>) -> Seq<EventV> {
    if announces(s, c) {
        let r = partial_response(chunk_metadata(s, c), md, prev, "in_progress"@);
        seq![EventV::Created(r), EventV::InProgress(r)]
    } else {
        Seq::empty()
    }
}

/// The text a chunk's first choice carries, empty where none.
pub open spec fn chunk_text(c: ChatCompletionChunk) -> Seq<char> {
    opt_view(c.choices@[0].delta.content).unwrap_or(Seq::empty())
}

proof fn lemma_tool_steps_step(s: StateV, fs: Seq<FragmentV>, i: int, t: StateV)
    requires
        0 <= i < fs.len(),
        t == tool_step(s, fs[i]).0,
    ensures
        tool_steps(s, fs.skip(i)) == ({
            let (s2, e2) = tool_steps(t, fs.skip(i + 1));
            (s2, tool_step(s, fs[i]).1 + e2)
        }),
{
    assert(fs.skip(i)[0] == fs[i]);
    assert(fs.skip(i).drop_first() =~= fs.skip(i + 1));
}

/// The state after a tool step has one more item at most.
proof fn lemma_tool_step_count(s: StateV, f: FragmentV)
    ensures
        item_count(tool_step(s, f).0) <= item_count(s) + 1,
{
    if find_tool(s.tools, f.index) is None {
        lemma_sorted_insert_len(s.tools, merge_tool(
            ToolV { tool_index: f.index, id: None, name: None, arguments: Seq::empty(), output_index: Some(item_count(s) as int) },
            f,
        ));
    }
}

proof fn lemma_sorted_insert_len(tools: Seq<ToolV>, t: ToolV)
    ensures
        sorted_insert(tools, t).len() == tools.len() + 1,
    decreases tools.len(),
{
    if tools.len() > 0 && tools[0].tool_index <= t.tool_index {
        lemma_sorted_insert_len(tools.drop_first(), t);
    }
}

/// Takes the first id, model and creation time the stream reports.
fn update_stream_metadata(state: &mut ResponsesBridgeState, chunk: &ChatCompletionChunk)
    ensures
        final(state)@ == (StateV { usage: old(state)@.usage, ..chunk_metadata(old(state)@, *chunk) }),
{
    if state.response_id.is_none() && chunk.id.as_str().unicode_len() > 0 {
        state.response_id = Some(to_owned_string(chunk.id.as_str()));
    }
    if state.response_model.is_none() && chunk.model.as_str().unicode_len() > 0 {
        state.response_model = Some(to_owned_string(chunk.model.as_str()));
    }
    if state.created_at.is_none() {
        state.created_at = Some(chunk.created);
    }
}

/// Folds the usage a chunk reports into the state.
fn update_stream_usage(state: &mut ResponsesBridgeState, usage: Option<&ChatCompletionUsage>)
    ensures
        final(state)@ == (StateV {
            usage: match usage {
                Some(u) => (Usage {
                    input_tokens: Some(u.prompt_tokens),
                    output_tokens: Some(u.completion_tokens),
                    total_tokens: Some(u.total_tokens),
                    ..old(state)@.usage
                }),
                None => old(state)@.usage,
            },
            ..old(state)@
        }),
{
    if let Some(u) = usage {
        let reported = Usage {
            input_tokens: Some(u.prompt_tokens),
            output_tokens: Some(u.completion_tokens),
            total_tokens: Some(u.total_tokens),
            input_audio_tokens: None,
            output_audio_tokens: None,
            cache_read_input_tokens: None,
            cache_creation_input_tokens: None,
        };
        state.usage.merge(&reported);
    }
}

/// Adds streamed text to the state and its events.
fn apply_text(state: &mut ResponsesBridgeState, content: &str, events: &mut Vec<ResponsesApiStreamEvent>)
    requires
        state_wf(old(state)@),
        item_count(old(state)@) < usize::MAX,
        content@.len() > 0,
    ensures
        state_wf(final(state)@),
        final(state)@ == text_step(old(state)@, content@).0,
        events_view(final(events)@) == events_view(old(events)@) + text_step(old(state)@, content@).1,
{
    let ghost s = state@;
    let ghost before = events@;
    match &state.text_output {
        Some(t) => {
            let ix = t.output_index;
            let text = concat(t.text.as_str(), content);
            state.text_output = Some(StreamingTextOutput { text, output_index: ix });
            proof {
                assert(state@ == text_step(s, content@).0);
                lemma_wf_same_positions(s, state@);
            }
            events.push(ResponsesApiStreamEvent::OutputTextDelta {
                output_index: ix,
                content_index: 0,
                delta: to_owned_string(content),
            });
            proof {
                assert(events_view(events@) =~= events_view(before) + text_step(s, content@).1);
            }
        },
        None => {
            let ix = next_stream_output_index(state);
            state.text_output = Some(StreamingTextOutput { text: String::new(), output_index: ix });
            let ghost opened = state@;
            proof {
                let t = state@;
                let f = |j: int| j;
                let g = |i: int| i;
                assert forall|j: int|
                    0 <= j < item_count(s) implies 0 <= #[trigger] f(j) < item_count(t) && f(j) != s.tools.len()
                    && position_of(t, f(j)) == position_of(s, j) by {}
                assert forall|i: int| 0 <= i < item_count(t) && i != s.tools.len() implies 0 <= #[trigger] g(i)
                    < item_count(s) && f(g(i)) == i by {}
                lemma_wf_add(s, t, s.tools.len() as int, f, g);
            }
            let item = streaming_message_output_item(state, false);
            events.push(ResponsesApiStreamEvent::OutputItemAdded { output_index: ix, item });
            events.push(ResponsesApiStreamEvent::ContentPartAdded {
                output_index: ix,
                content_index: 0,
                part: ResponsesOutputContent::OutputText { text: String::new() },
            });
            state.text_output = Some(StreamingTextOutput { text: to_owned_string(content), output_index: ix });
            proof {
                assert(state@ == text_step(s, content@).0);
                lemma_wf_same_positions(opened, state@);
            }
            events.push(ResponsesApiStreamEvent::OutputTextDelta {
                output_index: ix,
                content_index: 0,
                delta: to_owned_string(content),
            });
            proof {
                assert(events_view(events@) =~= events_view(before) + text_step(s, content@).1);
            }
        },
    }
}

/// The number of tool call fragments a chunk carries.
pub open spec fn fragment_count(c: ChatCompletionChunk) -> nat {
    if c.choices@.len() == 1 {
        fragments(c.choices@[0].delta.tool_calls).len()
    } else {
        0
    }
}

/// The events that close a streamed text output.
pub open spec fn text_end_events(s: StateV) -> Seq<EventV> {
    match s.text {
        Some(t) => seq![
            EventV::TextDone(t.output_index, 0, t.text),
            EventV::PartDone(t.output_index, 0, t.text),
            EventV::ItemDone(t.output_index, text_item(s, true)),
        ],
        None => Seq::empty(),
    }
}

/// The events that close the first `n` streamed tool calls.
pub open spec fn tool_end_events(s: StateV, n: nat) -> Seq<EventV>
    decreases n,
{
    if n == 0 {
        Seq::empty()
    } else {
        let t = s.tools[n - 1];
        tool_end_events(s, (n - 1) as nat) + seq![
            EventV::ArgumentsDone(t.output_index.unwrap(), t.arguments),
            EventV::ItemDone(t.output_index.unwrap(), tool_item(s, t, true)),
        ]
    }
}

/// The events that close a stream: the text, each tool call in order of
/// tool index, and the completed response; none where nothing started.
pub open spec fn end_events(s: StateV, md: Option<JsonV>, prev: Option<Seq<char>>) -> Seq<EventV> {
    if !s.started {
        Seq::empty()
    } else {
        text_end_events(s) + tool_end_events(s, s.tools.len()) + seq![
            EventV::Completed(partial_response(s, md, prev, "completed"@)),
        ]
    }
}

impl ResponsesApiFormat {
    /// Bridges one streamed Chat Completions chunk to Responses API events,
    /// updating the stream state.
    pub fn from_hub_stream(
        chunk: &ChatCompletionChunk,
        state: &mut ResponsesBridgeState,
        ctx: &BridgeContext,
    ) -> (r: Result<Vec<ResponsesApiStreamEvent>, GatewayError>)
        requires
            state_wf(old(state)@),
            item_count(old(state)@) + 1 + fragment_count(*chunk) <= usize::MAX,
        ensures
            state_wf(final(state)@),
            chunk.choices@.len() > 1 ==> (r matches Err(GatewayError::Bridge(e)) && e@ == single_choice_message()
                && final(state)@ == old(state)@),
            chunk.choices@.len() == 0 ==> (r matches Ok(es) && events_view(es@) == start_events(
                old(state)@,
                *chunk,
                ctx_metadata(*ctx),
                ctx_previous_id(*ctx),
            ) && final(state)@ == announced_state(old(state)@, *chunk)),
            chunk.choices@.len() == 1 && chunk.choices@[0].index != 0 ==> (r matches Err(GatewayError::Bridge(e))
                && e@ == choice_index_message() && final(state)@ == announced_state(old(state)@, *chunk)),
            chunk.choices@.len() == 1 && chunk.choices@[0].index == 0 ==> ({
                let (s3, te) = text_step(announced_state(old(state)@, *chunk), chunk_text(*chunk));
                let (s4, to) = tool_steps(s3, fragments(chunk.choices@[0].delta.tool_calls));
                &&& r matches Ok(es)
                &&& events_view(r->Ok_0@) == start_events(old(state)@, *chunk, ctx_metadata(*ctx), ctx_previous_id(*ctx))
                    + te + to
                &&& final(state)@ == s4
            }),
    {
        let ghost s0 = state@;
        if chunk.choices.len() > 1 {
            return Err(GatewayError::Bridge(to_owned_string(
                "Responses API stream bridge only supports a single chat choice",
            )));
        }
        update_stream_metadata(state, chunk);
        update_stream_usage(state, chunk.usage.as_ref());
        let ghost s1 = state@;
        proof {
            assert(s1 == chunk_metadata(s0, *chunk));
            lemma_wf_same_positions(s0, s1);
        }
        let mut events: Vec<ResponsesApiStreamEvent> = Vec::new();
        if !state.started && (chunk.choices.len() > 0 || chunk.usage.is_some()) {
            let created = partial_stream_response(state, ctx, "in_progress");
            let progress = partial_stream_response(state, ctx, "in_progress");
            state.started = true;
            events.push(ResponsesApiStreamEvent::ResponseCreated { response: created });
            events.push(ResponsesApiStreamEvent::ResponseInProgress { response: progress });
        }
        let ghost s2 = state@;
        proof {
            assert(s2 == announced_state(s0, *chunk));
            assert(events_view(events@) =~= start_events(s0, *chunk, ctx_metadata(*ctx), ctx_previous_id(*ctx)));
            lemma_wf_same_positions(s0, s2);
        }
        if chunk.choices.len() == 0 {
            return Ok(events);
        }
        let choice = &chunk.choices[0];
        if choice.index != 0 {
            return Err(GatewayError::Bridge(to_owned_string(
                "Responses API stream bridge only supports choice index 0",
            )));
        }
        let ghost ev2 = events@;
        if let Some(content) = &choice.delta.content {
            if content.as_str().unicode_len() > 0 {
                apply_text(state, content.as_str(), &mut events);
            }
        }
        let ghost s3 = state@;
        proof {
            if chunk_text(*chunk).len() == 0 {
                assert(events@ =~= ev2);
            }
            assert(s3 == text_step(s2, chunk_text(*chunk)).0);
            assert(events_view(events@) == events_view(ev2) + text_step(s2, chunk_text(*chunk)).1);
            assert(item_count(s3) <= item_count(s0) + 1);
        }
        let ghost ev3 = events@;
        let ghost fs = fragments(choice.delta.tool_calls);
        if let Some(calls) = &choice.delta.tool_calls {
            let mut i: usize = 0;
            proof {
                assert(fs.skip(0) =~= fs);
            }
            while i < calls.len()
                invariant
                    0 <= i <= calls@.len(),
                    fs == calls@.map_values(|f: ChunkToolCall| fragment_view(f)),
                    state_wf(state@),
                    item_count(state@) <= item_count(s0) + 1 + i,
                    item_count(s0) + 1 + fs.len() <= usize::MAX,
                    tool_steps(s3, fs) == ({
                        let (sr, er) = tool_steps(state@, fs.skip(i as int));
                        (sr, events_view(events@).subrange(events_view(ev3).len() as int, events_view(events@).len() as int) + er)
                    }),
                    events_view(events@).subrange(0, events_view(ev3).len() as int) == events_view(ev3),
                    events_view(ev3).len() <= events_view(events@).len(),
                decreases calls.len() - i,
            {
                let ghost si = state@;
                let ghost evi = events@;
                proof {
                    lemma_tool_step_count(si, fs[i as int]);
                    lemma_tool_steps_step(si, fs, i as int, tool_step(si, fs[i as int]).0);
                    assert(fs[i as int] == fragment_view(calls@[i as int]));
                }
                apply_tool_fragment(state, &calls[i], &mut events);
                proof {
                    let a = events_view(evi);
                    let b = events_view(events@);
                    let base = events_view(ev3).len() as int;
                    assert(b.subrange(base, b.len() as int) =~= a.subrange(base, a.len() as int) + tool_step(si, fs[i as int]).1);
                    assert(b.subrange(0, base) =~= a.subrange(0, base));
                }
                i += 1;
            }
            proof {
                assert(fs.skip(i as int) =~= Seq::<FragmentV>::empty());
                let b = events_view(events@);
                let base = events_view(ev3).len() as int;
                assert(b =~= b.subrange(0, base) + b.subrange(base, b.len() as int));
            }
        } else {
            proof {
                assert(fs =~= Seq::<FragmentV>::empty());
                assert(events_view(events@) =~= events_view(events@) + Seq::<EventV>::empty());
            }
        }
        Ok(events)
    }

    /// The events that close a stream.
    pub fn stream_end_events(state: &ResponsesBridgeState, ctx: &BridgeContext) -> (r: Vec<ResponsesApiStreamEvent>)
        requires
            state_wf(state@),
        ensures
            events_view(r@) == end_events(state@, ctx_metadata(*ctx), ctx_previous_id(*ctx)),
    {
        let ghost s = state@;
        let mut events: Vec<ResponsesApiStreamEvent> = Vec::new();
        if !state.started {
            proof {
                assert(events_view(events@) =~= Seq::<EventV>::empty());
            }
            return events;
        }
        if let Some(t) = &state.text_output {
            events.push(ResponsesApiStreamEvent::OutputTextDone {
                output_index: t.output_index,
                content_index: 0,
                text: to_owned_string(t.text.as_str()),
            });
            events.push(ResponsesApiStreamEvent::ContentPartDone {
                output_index: t.output_index,
                content_index: 0,
                part: ResponsesOutputContent::OutputText { text: to_owned_string(t.text.as_str()) },
            });
            events.push(ResponsesApiStreamEvent::OutputItemDone {
                output_index: t.output_index,
                item: streaming_message_output_item(state, true),
            });
        }
        proof {
            assert(events_view(events@) =~= text_end_events(s));
        }
        let ghost head = events_view(events@);
        let mut j: usize = 0;
        while j < state.tool_calls.len()
            invariant
                0 <= j <= state.tool_calls@.len(),
                s == state@,
                state_wf(s),
                s.tools.len() == state.tool_calls@.len(),
                head == text_end_events(s),
                events_view(events@) == head + tool_end_events(s, j as nat),
            decreases state.tool_calls.len() - j,
        {
            proof {
                assert(s.tools[j as int] == tool_view(state.tool_calls@[j as int]));
            }
            let ix = match state.tool_calls[j].1.output_index {
                Some(ix) => ix,
                None => {
                    proof {
                        assert(s.tools[j as int].output_index is Some);
                    }
                    0
                },
            };
            let ghost before = events_view(events@);
            events.push(ResponsesApiStreamEvent::FunctionCallArgumentsDone {
                output_index: ix,
                arguments: to_owned_string(state.tool_calls[j].1.arguments.as_str()),
            });
            events.push(ResponsesApiStreamEvent::OutputItemDone {
                output_index: ix,
                item: streaming_function_call_output_item(state, j, true),
            });
            proof {
                assert(events_view(events@) =~= before + seq![
                    EventV::ArgumentsDone(s.tools[j as int].output_index.unwrap(), s.tools[j as int].arguments),
                    EventV::ItemDone(s.tools[j as int].output_index.unwrap(), tool_item(s, s.tools[j as int], true)),
                ]);
            }
            j += 1;
        }
        let ghost mid = events_view(events@);
        let done = partial_stream_response(state, ctx, "completed");
        events.push(ResponsesApiStreamEvent::ResponseCompleted { response: done });
        proof {
            assert(events_view(events@) =~= mid + seq![
                EventV::Completed(partial_response(s, ctx_metadata(*ctx), ctx_previous_id(*ctx), "completed"@)),
            ]);
        }
        events
    }
}

proof fn lemma_sorted_insert_keeps(tools: Seq<ToolV>, t: ToolV)
    ensures
        forall|j: int|
            0 <= j < tools.len() ==> #[trigger] sorted_insert(tools, t)[j] == tools[j] || sorted_insert(tools, t)[j + 1]
                == tools[j],
    decreases tools.len(),
{
    lemma_sorted_insert_len(tools, t);
    if tools.len() > 0 {
        if tools[0].tool_index > t.tool_index {
            assert forall|j: int| 0 <= j < tools.len() implies #[trigger] sorted_insert(tools, t)[j] == tools[j]
                || sorted_insert(tools, t)[j + 1] == tools[j] by {
                assert(sorted_insert(tools, t)[j + 1] == tools[j]);
            }
        } else {
            let rest = tools.drop_first();
            lemma_sorted_insert_keeps(rest, t);
            assert forall|j: int| 0 <= j < tools.len() implies #[trigger] sorted_insert(tools, t)[j] == tools[j]
                || sorted_insert(tools, t)[j + 1] == tools[j] by {
                if j > 0 {
                    assert(rest[j - 1] == tools[j]);
                    assert(sorted_insert(tools, t)[j] == sorted_insert(rest, t)[j - 1]);
                    assert(sorted_insert(tools, t)[j + 1] == sorted_insert(rest, t)[j]);
                    assert(sorted_insert(rest, t)[j - 1] == rest[j - 1] || sorted_insert(rest, t)[j] == rest[j - 1]);
                }
            }
        }
    }
}

/// A tool call fragment never moves an item that is already streaming: the
/// text keeps its output position, and every tool call keeps its position
/// under its tool index; a new tool call takes the position after all
/// others.
pub proof fn law_tool_fragment_keeps_positions(s: StateV, f: FragmentV)
    requires
        state_wf(s),
    ensures
        tool_step(s, f).0.text == s.text,
        forall|j: int|
            #![trigger s.tools[j]]
            0 <= j < s.tools.len() ==> exists|j2: int|
                0 <= j2 < tool_step(s, f).0.tools.len() && #[trigger] tool_step(s, f).0.tools[j2].tool_index
                    == s.tools[j].tool_index && tool_step(s, f).0.tools[j2].output_index == s.tools[j].output_index,
{
    let t = tool_step(s, f).0;
    match find_tool(s.tools, f.index) {
        Some(q) => {
            assert forall|j: int| #![trigger s.tools[j]] 0 <= j < s.tools.len() implies exists|j2: int|
                0 <= j2 < t.tools.len() && #[trigger] t.tools[j2].tool_index == s.tools[j].tool_index
                    && t.tools[j2].output_index == s.tools[j].output_index by {
                assert(t.tools[j].tool_index == s.tools[j].tool_index);
            }
        },
        None => {
            let nt = merge_tool(
                ToolV { tool_index: f.index, id: None, name: None, arguments: Seq::empty(), output_index: Some(item_count(s) as int) },
                f,
            );
            lemma_sorted_insert_keeps(s.tools, nt);
            lemma_sorted_insert_len(s.tools, nt);
            assert forall|j: int| #![trigger s.tools[j]] 0 <= j < s.tools.len() implies exists|j2: int|
                0 <= j2 < t.tools.len() && #[trigger] t.tools[j2].tool_index == s.tools[j].tool_index
                    && t.tools[j2].output_index == s.tools[j].output_index by {
                if sorted_insert(s.tools, nt)[j] == s.tools[j] {
                    assert(t.tools[j].tool_index == s.tools[j].tool_index);
                } else {
                    assert(t.tools[j + 1].tool_index == s.tools[j].tool_index);
                }
            }
        },
    }
}

/// Whether an event announces the response.
pub open spec fn is_announcement(e: EventV) -> bool {
    e is Created || e is InProgress
}

proof fn lemma_tool_steps_quiet(s: StateV, fs: Seq<FragmentV>)
    ensures
        tool_steps(s, fs).0.started == s.started,
        forall|i: int| 0 <= i < tool_steps(s, fs).1.len() ==> !is_announcement(#[trigger] tool_steps(s, fs).1[i]),
    decreases fs.len(),
{
    if fs.len() > 0 {
        let (s1, e1) = tool_step(s, fs[0]);
        lemma_tool_steps_quiet(s1, fs.drop_first());
        let e2 = tool_steps(s1, fs.drop_first()).1;
        assert forall|i: int| 0 <= i < (e1 + e2).len() implies !is_announcement(#[trigger] (e1 + e2)[i]) by {
            if i >= e1.len() {
                assert((e1 + e2)[i] == e2[i - e1.len()]);
            }
        }
    }
}

/// A stream announces its response once: the events of a chunk begin with
/// the announcement exactly when the stream had not started and the chunk
/// (with a choice or usage) starts it; none of the text and tool call
/// events that follow announces it; and a started stream stays started.
pub proof fn law_announced_once(
    s: StateV,
    c: ChatCompletionChunk,
    md: Option<JsonV>,
    prev: Option<Seq<char>>,
    content: Seq<char>,
    fs: Seq<FragmentV>,
)
    ensures
        announced_state(s, c).started == (s.started || c.choices@.len() > 0 || c.usage is Some),
        start_events(s, c, md, prev).len() > 0 <==> (!s.started && announced_state(s, c).started),
        forall|i: int|
            0 <= i < start_events(s, c, md, prev).len() ==> is_announcement(
                #[trigger] start_events(s, c, md, prev)[i],
            ),
        ({
            let (s3, te) = text_step(announced_state(s, c), content);
            let (s4, to) = tool_steps(s3, fs);
            &&& s4.started == announced_state(s, c).started
            &&& forall|i: int| 0 <= i < (te + to).len() ==> !is_announcement(#[trigger] (te + to)[i])
        }),
{
    let (s3, te) = text_step(announced_state(s, c), content);
    lemma_tool_steps_quiet(s3, fs);
    let to = tool_steps(s3, fs).1;
    assert forall|i: int| 0 <= i < (te + to).len() implies !is_announcement(#[trigger] (te + to)[i]) by {
        if i >= te.len() {
            assert((te + to)[i] == to[i - te.len()]);
        }
    }
}

/// Streamed text never moves an item: the tool calls are untouched, and
/// the text output keeps its position once it has one.
pub proof fn law_text_keeps_positions(s: StateV, content: Seq<char>)
    ensures
        text_step(s, content).0.tools == s.tools,
        s.text matches Some(x) ==> (text_step(s, content).0.text matches Some(y) && y.output_index == x.output_index),
        s.text is None && content.len() > 0 ==> (text_step(s, content).0.text matches Some(y) && y.output_index
            == item_count(s)),
{
}

/// The usage a native Responses stream event reports: that of the response
/// in a created, in-progress or completed event.
pub open spec fn native_event_usage(event: ResponsesApiStreamEvent) -> Option<ResponsesUsage> {
    match event {
        ResponsesApiStreamEvent::ResponseCreated { response } => Some(response.usage),
        ResponsesApiStreamEvent::ResponseInProgress { response } => Some(response.usage),
        ResponsesApiStreamEvent::ResponseCompleted { response } => Some(response.usage),
        _ => None,
    }
}

/// The gateway's usage record of a Responses usage.
pub open spec fn responses_usage_record(u: ResponsesUsage) -> Usage {
    Usage {
        input_tokens: Some(u.input_tokens),
        output_tokens: Some(u.output_tokens),
        total_tokens: Some(u.total_tokens),
        input_audio_tokens: None,
        output_audio_tokens: None,
        cache_read_input_tokens: None,
        cache_creation_input_tokens: None,
    }
}

/// Folds the usage that a native Responses stream event reports into the
/// stream state; events without a response leave it alone.
pub fn update_native_usage_from_event(event: &ResponsesApiStreamEvent, state: &mut OpenAIResponsesNativeStreamState)
    ensures
        final(state).usage == (match native_event_usage(*event) {
            Some(u) => merged_usage(old(state).usage, responses_usage_record(u)),
            None => old(state).usage,
        }),
{
    let usage = match event {
        ResponsesApiStreamEvent::ResponseCreated { response } => responses_usage_to_common(&response.usage),
        ResponsesApiStreamEvent::ResponseInProgress { response } => responses_usage_to_common(&response.usage),
        ResponsesApiStreamEvent::ResponseCompleted { response } => responses_usage_to_common(&response.usage),
        _ => {
            return;
        },
    };
    state.usage.merge(&usage);
}

/// The Chat Completions format itself: requests, responses and chunks pass
/// through the hub unchanged.
#[derive(Debug)]
pub struct OpenAIChatFormat;

impl OpenAIChatFormat {
    /// The name of the format.
    pub fn name() -> (r: &'static str)
        ensures
            r@ == "openai_chat"@,
    {
        "openai_chat"
    }

    /// Whether the request asks for a stream.
    pub fn is_stream(req: &ChatCompletionRequest) -> (r: bool)
        ensures
            r == (req.stream == Some(true)),
    {
        match req.stream {
            Some(b) => b,
            None => false,
        }
    }

    /// The model the request names.
    pub fn extract_model(req: &ChatCompletionRequest) -> (r: &str)
        ensures
            r@ == req.model@,
    {
        req.model.as_str()
    }

    /// The hub request is the request itself, with an empty context.
    pub fn to_hub(req: ChatCompletionRequest) -> (r: (ChatCompletionRequest, BridgeContext))
        ensures
            r.0 == req,
            r.1.openai_responses_extras is None,
    {
        (req, BridgeContext::empty())
    }

    /// The response is the hub response itself.
    pub fn from_hub(resp: ChatCompletionResponse, ctx: &BridgeContext) -> (r: ChatCompletionResponse)
        ensures
            r == resp,
    {
        resp
    }

    /// Each hub chunk passes on as it is.
    pub fn from_hub_stream(chunk: ChatCompletionChunk, ctx: &BridgeContext) -> (r: Vec<ChatCompletionChunk>)
        ensures
            r@ == seq![chunk],
    {
        vec![chunk]
    }

    /// The format has no native path: asking for one is refused for the
    /// provider named.
    pub fn transform_native_stream_chunk(provider: &str, raw: &str) -> (r: Result<Vec<ChatCompletionChunk>, GatewayError>)
        ensures
            r matches Err(GatewayError::NativeNotSupported { provider: p }) && p@ == provider@,
    {
        Err(GatewayError::NativeNotSupported { provider: to_owned_string(provider) })
    }
}

/// The usage after folding in what each event reports, in order.
pub open spec fn usage_after_events(u: Usage, events: Seq<ResponsesApiStreamEvent>) -> Usage
    decreases events.len(),
{
    if events.len() == 0 {
        u
    } else {
        let before = usage_after_events(u, events.drop_last());
        match native_event_usage(events.last()) {
            Some(r) => merged_usage(before, responses_usage_record(r)),
            None => before,
        }
    }
}

impl ResponsesApiFormat {
    /// Records the usage that the events of a native Responses stream chunk
    /// report, in order.
    pub fn record_native_events(events: &Vec<ResponsesApiStreamEvent>, state: &mut OpenAIResponsesNativeStreamState)
        ensures
            final(state).usage == usage_after_events(old(state).usage, events@),
    {
        let ghost start = state.usage;
        let mut i: usize = 0;
        while i < events.len()
            invariant
                0 <= i <= events@.len(),
                state.usage == usage_after_events(start, events@.take(i as int)),
            decreases events.len() - i,
        {
            proof {
                assert(events@.take(i + 1).drop_last() =~= events@.take(i as int));
                assert(events@.take(i + 1).last() == events@[i as int]);
            }
            update_native_usage_from_event(&events[i], state);
            i += 1;
        }
        proof {
            assert(events@.take(i as int) =~= events@);
        }
    }

    /// The usage a native Responses stream has reported so far.
    pub fn native_usage(state: &OpenAIResponsesNativeStreamState) -> (r: Usage)
        ensures
            r == state.usage,
    {
        state.usage.copy()
    }
}


/// A bridged response counts its input as the chat's prompt tokens, its
/// output as the completion tokens, and keeps the total; with no usage
/// every count is zero.
pub proof fn law_usage_bridge(u: ChatCompletionUsage)
    ensures
        usage_from_chat(Some(u)).input_tokens == u.prompt_tokens,
        usage_from_chat(Some(u)).output_tokens == u.completion_tokens,
        usage_from_chat(Some(u)).total_tokens == u.total_tokens,
        usage_from_chat(None).input_tokens == 0,
        usage_from_chat(None).output_tokens == 0,
        usage_from_chat(None).total_tokens == 0,
{
}

} // verus!
