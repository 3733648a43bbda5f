//! Amazon Bedrock Converse: its message shapes, the mapping of hub requests
//! and responses onto it, and the translation of its stream events into hub
//! chunks.
use vstd::prelude::*;

use crate::auth::GatewayError;
use crate::chat::{
    content_view, opt_content_view, ChatCompletionUsage, ChatStreamState, ChunkChoice, ChunkDelta,
    ChatCompletionChunk, ChunkToolCall, ContentPart, ContentV, MessageContent, PartV, ToolCall,
    ToolCallAccumulator, ToolChoice, ToolChoiceV, tool_choice_view, ChatMessage, ChatCompletionRequest,
};
use crate::json::{json_parse, json_text, parse_json, to_json_text, JsonV, JsonValue};
use crate::text::{concat, opt_view, str_eq, to_owned_string};

verus! {

/// The author of a Bedrock message.
#[derive(Clone, Copy, Debug, PartialEq, Eq, Structural)]
pub enum BedrockRole {
    User,
    Assistant,
}

/// A system prompt block.
#[derive(Debug)]
pub struct BedrockSystemContentBlock {
    pub text: String,
}

/// The empty object that Bedrock's tool choice variants carry.
#[derive(Clone, Copy, Debug, PartialEq, Eq, Structural)]
pub struct BedrockEmptyObject {}

/// A tool choice naming one tool.
#[derive(Debug)]
pub struct BedrockSpecificToolChoice {
    pub name: String,
}

/// How Bedrock should pick tools.
#[derive(Debug)]
pub enum BedrockToolChoice {
    Auto { auto: BedrockEmptyObject },
    Any { any: BedrockEmptyObject },
    Tool { tool: BedrockSpecificToolChoice },
}

/// Token counts as Bedrock reports them.
#[derive(Clone, Copy, Debug, PartialEq, Eq, Structural)]
pub struct BedrockUsage {
    pub input_tokens: u32,
    pub output_tokens: u32,
    pub total_tokens: u32,
}

/// The start of a streamed message.
#[derive(Debug)]
pub struct BedrockMessageStartEvent {
    pub role: BedrockRole,
}

/// The start of a streamed tool use block.
#[derive(Debug)]
pub struct BedrockToolUseBlockStart {
    pub tool_use_id: String,
    pub name: String,
}

/// What starts a content block.
#[derive(Debug)]
pub struct BedrockContentBlockStart {
    pub tool_use: Option<BedrockToolUseBlockStart>,
}

/// The start of a content block.
#[derive(Debug)]
pub struct BedrockContentBlockStartEvent {
    pub content_block_index: u64,
    pub start: Option<BedrockContentBlockStart>,
}

/// A piece of streamed tool input.
#[derive(Debug)]
pub struct BedrockToolUseBlockDelta {
    pub input: String,
}

/// What a content block delta adds.
#[derive(Debug)]
pub struct BedrockContentBlockDelta {
    pub text: Option<String>,
    pub tool_use: Option<BedrockToolUseBlockDelta>,
}

/// A delta of a content block.
#[derive(Debug)]
pub struct BedrockContentBlockDeltaEvent {
    pub content_block_index: u64,
    pub delta: BedrockContentBlockDelta,
}

/// The end of a content block.
#[derive(Debug)]
pub struct BedrockContentBlockStopEvent {
    pub content_block_index: u64,
}

/// The end of a streamed message.
#[derive(Debug)]
pub struct BedrockMessageStopEvent {
    pub stop_reason: Option<String>,
    pub additional_model_response_fields: Option<JsonValue>,
}

/// Metadata at the end of a stream.
#[derive(Debug)]
pub struct BedrockConverseStreamMetadataEvent {
    pub usage: Option<BedrockUsage>,
}

/// One event of a Bedrock Converse stream, by its frame type.
#[derive(Debug)]
pub enum BedrockStreamEvent {
    MessageStart(BedrockMessageStartEvent),
    ContentBlockStart(BedrockContentBlockStartEvent),
    ContentBlockDelta(BedrockContentBlockDeltaEvent),
    ContentBlockStop(BedrockContentBlockStopEvent),
    MessageStop(BedrockMessageStopEvent),
    Metadata(BedrockConverseStreamMetadataEvent),
    /// A frame type the gateway does not translate.
    Other,
}

/// The kinds of stream frame, by their `type` field.
#[derive(Clone, Copy, Debug, PartialEq, Eq, Structural)]
pub enum BedrockFrameKind {
    MessageStart,
    ContentBlockStart,
    ContentBlockDelta,
    ContentBlockStop,
    MessageStop,
    Metadata,
    Other,
}

/// The kind of a stream frame with this `type`.
pub open spec fn frame_kind_spec(t: Seq<char>) -> BedrockFrameKind {
    if t == "messageStart"@ {
        BedrockFrameKind::MessageStart
    } else if t == "contentBlockStart"@ {
        BedrockFrameKind::ContentBlockStart
    } else if t == "contentBlockDelta"@ {
        BedrockFrameKind::ContentBlockDelta
    } else if t == "contentBlockStop"@ {
        BedrockFrameKind::ContentBlockStop
    } else if t == "messageStop"@ {
        BedrockFrameKind::MessageStop
    } else if t == "metadata"@ {
        BedrockFrameKind::Metadata
    } else {
        BedrockFrameKind::Other
    }
}

/// The kind of a stream frame with this `type`, which decides how its
/// payload is read.
pub fn frame_kind(event_type: &str) -> (r: BedrockFrameKind)
    ensures
        r == frame_kind_spec(event_type@),
{
    if str_eq(event_type, "messageStart") {
        BedrockFrameKind::MessageStart
    } else if str_eq(event_type, "contentBlockStart") {
        BedrockFrameKind::ContentBlockStart
    } else if str_eq(event_type, "contentBlockDelta") {
        BedrockFrameKind::ContentBlockDelta
    } else if str_eq(event_type, "contentBlockStop") {
        BedrockFrameKind::ContentBlockStop
    } else if str_eq(event_type, "messageStop") {
        BedrockFrameKind::MessageStop
    } else if str_eq(event_type, "metadata") {
        BedrockFrameKind::Metadata
    } else {
        BedrockFrameKind::Other
    }
}

/// The hub finish reason for a Bedrock stop reason.
pub open spec fn finish_reason_spec(reason: Seq<char>) -> Seq<char> {
    if reason == "end_turn"@ || reason == "stop_sequence"@ {
        "stop"@
    } else if reason == "max_tokens"@ {
        "length"@
    } else if reason == "tool_use"@ {
        "tool_calls"@
    } else {
        reason
    }
}

/// The hub finish reason for a Bedrock stop reason.
pub fn map_finish_reason(reason: &str) -> (r: String)
    ensures
        r@ == finish_reason_spec(reason@),
        reason@ == "end_turn"@ ==> r@ == "stop"@,
        reason@ == "stop_sequence"@ ==> r@ == "stop"@,
        reason@ == "max_tokens"@ ==> r@ == "length"@,
        reason@ == "tool_use"@ ==> r@ == "tool_calls"@,
{
    proof {
        law_finish_reasons(reason@);
    }
    if str_eq(reason, "end_turn") || str_eq(reason, "stop_sequence") {
        to_owned_string("stop")
    } else if str_eq(reason, "max_tokens") {
        to_owned_string("length")
    } else if str_eq(reason, "tool_use") {
        to_owned_string("tool_calls")
    } else {
        to_owned_string(reason)
    }
}

/// Hub usage for Bedrock usage.
pub fn bedrock_usage_to_openai_usage(usage: &BedrockUsage) -> (r: ChatCompletionUsage)
    ensures
        r.prompt_tokens == usage.input_tokens,
        r.completion_tokens == usage.output_tokens,
        r.total_tokens == usage.total_tokens,
        r.prompt_tokens_details is None,
        r.completion_tokens_details is None,
{
    ChatCompletionUsage {
        prompt_tokens: usage.input_tokens as u64,
        completion_tokens: usage.output_tokens as u64,
        total_tokens: usage.total_tokens as u64,
        prompt_tokens_details: None,
        completion_tokens_details: None,
    }
}

/// The Bedrock form of a tool choice, in mathematical form.
pub ghost enum BedrockChoiceV {
    Auto,
    Any,
    Tool(Seq<char>),
}

/// A Bedrock tool choice, by its view.
pub open spec fn bedrock_choice_view(c: BedrockToolChoice) -> BedrockChoiceV {
    match c {
        BedrockToolChoice::Auto { .. } => BedrockChoiceV::Auto,
        BedrockToolChoice::Any { .. } => BedrockChoiceV::Any,
        BedrockToolChoice::Tool { tool } => BedrockChoiceV::Tool(tool.name@),
    }
}

/// The Bedrock tool choice for a hub tool choice, or why there is none.
pub open spec fn bedrock_choice_spec(c: ToolChoiceV) -> Result<BedrockChoiceV, Seq<char>> {
    match c {
        ToolChoiceV::Mode(m) => if m == "auto"@ {
            Ok(BedrockChoiceV::Auto)
        } else if m == "required"@ {
            Ok(BedrockChoiceV::Any)
        } else if m == "none"@ {
            Err("bedrock converse does not support tool_choice = none"@)
        } else {
            Err("unsupported tool_choice mode for bedrock converse: "@ + m)
        },
        ToolChoiceV::Function(kind, name) => if kind != "function"@ {
            Err("bedrock converse only supports function tool choices, got "@ + kind)
        } else {
            Ok(BedrockChoiceV::Tool(name))
        },
    }
}

/// The Bedrock form of a hub tool choice.
pub fn openai_tool_choice_to_bedrock(tool_choice: &ToolChoice) -> (r: Result<BedrockToolChoice, GatewayError>)
    ensures
        match bedrock_choice_spec(tool_choice_view(*tool_choice)) {
            Ok(c) => r matches Ok(b) && bedrock_choice_view(b) == c,
            Err(m) => r matches Err(GatewayError::Bridge(e)) && e@ == m,
        },
{
    match tool_choice {
        ToolChoice::Mode(mode) => {
            if str_eq(mode.as_str(), "auto") {
                Ok(BedrockToolChoice::Auto { auto: BedrockEmptyObject {} })
            } else if str_eq(mode.as_str(), "required") {
                Ok(BedrockToolChoice::Any { any: BedrockEmptyObject {} })
            } else if str_eq(mode.as_str(), "none") {
                Err(GatewayError::Bridge(to_owned_string("bedrock converse does not support tool_choice = none")))
            } else {
                Err(GatewayError::Bridge(concat("unsupported tool_choice mode for bedrock converse: ", mode.as_str())))
            }
        },
        ToolChoice::Function { kind, name } => {
            if !str_eq(kind.as_str(), "function") {
                return Err(GatewayError::Bridge(
                    concat("bedrock converse only supports function tool choices, got ", kind.as_str()),
                ));
            }
            Ok(BedrockToolChoice::Tool { tool: BedrockSpecificToolChoice { name: to_owned_string(name.as_str()) } })
        },
    }
}

/// The message for content that a role's messages must have.
pub open spec fn missing_content_message(role: Seq<char>) -> Seq<char> {
    "bedrock converse "@ + role + " messages require content"@
}

/// The message for image content in a role's messages.
pub open spec fn image_content_message(role: Seq<char>) -> Seq<char> {
    "bedrock converse "@ + role + " messages do not support image content yet"@
}

/// The text fragments of message content, or why there are none: absent
/// content is an error unless `allow_empty`, and images are refused.
pub open spec fn text_fragments_spec(c: Option<ContentV>, role: Seq<char>, allow_empty: bool) -> Result<Seq<Seq<char>>, Seq<char>> {
    match c {
        None => if allow_empty {
            Ok(Seq::empty())
        } else {
            Err(missing_content_message(role))
        },
        Some(ContentV::Text(t)) => Ok(seq![t]),
        Some(ContentV::Parts(ps)) => if forall|j: int| 0 <= j < ps.len() ==> ps[j] is Text {
            Ok(ps.map_values(|p: PartV| p->Text_0))
        } else {
            Err(image_content_message(role))
        },
    }
}

/// Optional message content, by its view.
pub open spec fn ref_content_view(c: Option<&MessageContent>) -> Option<ContentV> {
    match c {
        Some(m) => Some(content_view(*m)),
        None => None,
    }
}

/// A list of strings, by their views.
pub open spec fn strings_view(v: Seq<String>) -> Seq<Seq<char>> {
    v.map_values(|s: String| s@)
}

/// The text fragments of message content.
pub fn text_fragments_from_message_content(content: Option<&MessageContent>, role: &str, allow_empty: bool) -> (r: Result<Vec<String>, GatewayError>)
    ensures
        match text_fragments_spec(ref_content_view(content), role@, allow_empty) {
            Ok(ts) => r matches Ok(v) && strings_view(v@) == ts,
            Err(m) => r matches Err(GatewayError::Bridge(e)) && e@ == m,
        },
{
    let c = match content {
        Some(c) => c,
        None => {
            if allow_empty {
                let v: Vec<String> = Vec::new();
                proof {
                    assert(strings_view(v@) =~= Seq::<Seq<char>>::empty());
                }
                return Ok(v);
            }
            let head = concat("bedrock converse ", role);
            return Err(GatewayError::Bridge(concat(head.as_str(), " messages require content")));
        },
    };
    match c {
        MessageContent::Text(t) => {
            let mut v: Vec<String> = Vec::new();
            v.push(to_owned_string(t.as_str()));
            proof {
                assert(strings_view(v@) =~= seq![t@]);
            }
            Ok(v)
        },
        MessageContent::Parts(parts) => {
            let ghost pv = parts@.map_values(|p: ContentPart| crate::chat::part_view(p));
            let mut v: Vec<String> = Vec::new();
            let mut i: usize = 0;
            while i < parts.len()
                invariant
                    0 <= i <= parts@.len(),
                    v@.len() == i,
                    pv == parts@.map_values(|p: ContentPart| crate::chat::part_view(p)),
                    content == Some(c),
                    content_view(*c) == ContentV::Parts(pv),
                    forall|j: int| 0 <= j < i ==> pv[j] is Text,
                    forall|j: int| 0 <= j < i ==> (#[trigger] v@[j])@ == pv[j]->Text_0,
                decreases parts.len() - i,
            {
                match &parts[i] {
                    ContentPart::Text { text } => {
                        v.push(to_owned_string(text.as_str()));
                    },
                    ContentPart::ImageUrl { .. } => {
                        proof {
                            assert(!(pv[i as int] is Text));
                        }
                        let head = concat("bedrock converse ", role);
                        return Err(GatewayError::Bridge(concat(head.as_str(), " messages do not support image content yet")));
                    },
                }
                i += 1;
            }
            proof {
                assert(strings_view(v@) =~= pv.map_values(|p: PartV| p->Text_0));
            }
            Ok(v)
        },
    }
}

/// The system blocks for a system or developer message.
pub fn system_blocks_from_content(content: Option<&MessageContent>, role: &str) -> (r: Result<Vec<BedrockSystemContentBlock>, GatewayError>)
    ensures
        match text_fragments_spec(ref_content_view(content), role@, false) {
            Ok(ts) => r matches Ok(v) && v@.len() == ts.len() && forall|j: int| 0 <= j < ts.len() ==> (#[trigger] v@[j]).text@ == ts[j],
            Err(m) => r matches Err(GatewayError::Bridge(e)) && e@ == m,
        },
{
    let texts = text_fragments_from_message_content(content, role, false)?;
    let mut out: Vec<BedrockSystemContentBlock> = Vec::new();
    let mut i: usize = 0;
    while i < texts.len()
        invariant
            0 <= i <= texts@.len(),
            out@.len() == i,
            forall|j: int| 0 <= j < i ==> (#[trigger] out@[j]).text@ == texts@[j]@,
        decreases texts.len() - i,
    {
        out.push(BedrockSystemContentBlock { text: to_owned_string(texts[i].as_str()) });
        i += 1;
    }
    Ok(out)
}

#[verifier::external_type_specification]
#[verifier::external_body]
pub struct ExSystemTime(std::time::SystemTime);

/// The current time, from `std::time::SystemTime::now`; nothing is claimed
/// of its value.
#[verifier::external_body]
fn system_time_now() -> std::time::SystemTime {
    std::time::SystemTime::now()
}

/// Whole seconds from the Unix epoch to `t`, from
/// `SystemTime::duration_since(UNIX_EPOCH)`; the error is that of a time
/// before the epoch. Nothing is claimed of the value.
#[verifier::external_body]
fn seconds_since_epoch(t: &std::time::SystemTime) -> Result<u64, String> {
    t.duration_since(std::time::UNIX_EPOCH).map(|d| d.as_secs()).map_err(|e| e.to_string())
}

/// The current Unix time in seconds; a clock set before the epoch is an
/// internal error.
pub fn current_unix_timestamp() -> (r: Result<u64, GatewayError>)
    ensures
        r matches Err(e) ==> e is Internal,
{
    let now = system_time_now();
    match seconds_since_epoch(&now) {
        Ok(s) => Ok(s),
        Err(m) => Err(GatewayError::Internal(m)),
    }
}

/// A random UUID, from `uuid::Uuid::new_v4`, in its hyphenated text.
///
/// Trusted: the text is 36 characters long; the UUID is random and nothing
/// more is claimed of it.
#[verifier::external_body]
fn random_uuid_text() -> (r: String)
    ensures
        r@.len() == 36,
{
    uuid::Uuid::new_v4().to_string()
}

/// A fresh response id: `bedrock-` followed by a random UUID.
fn new_response_id() -> (r: String)
    ensures
        r@.len() == 44,
        r@.subrange(0, 8) == "bedrock-"@,
{
    let id = concat("bedrock-", random_uuid_text().as_str());
    proof {
        reveal_strlit("bedrock-");
        assert(id@.subrange(0, 8) =~= "bedrock-"@);
    }
    id
}

/// The message for a chunk before the stream's start.
pub open spec fn before_start_message() -> Seq<char> {
    "bedrock stream emitted a delta before messageStart"@
}

/// The message for a chunk without a creation time.
pub open spec fn missing_created_message() -> Seq<char> {
    "bedrock stream missing response_created metadata"@
}

/// The message for a chunk without a model.
pub open spec fn missing_model_message() -> Seq<char> {
    "bedrock stream missing response_model metadata"@
}

/// Why no chunk can be built from the state, if none can.
pub open spec fn chunk_block(st: ChatStreamState) -> Option<Seq<char>> {
    if st.response_id is None {
        Some(before_start_message())
    } else if st.response_created is None {
        Some(missing_created_message())
    } else if st.response_model is None {
        Some(missing_model_message())
    } else {
        None
    }
}

/// Whether `c` is the hub chunk for the stream state with one choice that
/// carries `delta`, `finish_reason` and `usage`.
pub open spec fn chunk_of(
    c: ChatCompletionChunk,
    st: ChatStreamState,
    delta: ChunkDelta,
    finish_reason: Option<String>,
    usage: Option<ChatCompletionUsage>,
) -> bool {
    &&& opt_view(Some(c.id)) == opt_view(st.response_id)
    &&& Some(c.created) == st.response_created
    &&& opt_view(Some(c.model)) == opt_view(st.response_model)
    &&& c.choices@.len() == 1
    &&& c.choices@[0].index == 0
    &&& c.choices@[0].delta == delta
    &&& c.choices@[0].finish_reason == finish_reason
    &&& c.usage == usage
}

/// A hub chunk of the stream, with one choice.
pub fn build_bedrock_stream_chunk(
    state: &ChatStreamState,
    delta: ChunkDelta,
    finish_reason: Option<String>,
    usage: Option<ChatCompletionUsage>,
) -> (r: Result<ChatCompletionChunk, GatewayError>)
    ensures
        chunk_block(*state) matches Some(m) ==> (r matches Err(GatewayError::Stream(e)) && e@ == m),
        chunk_block(*state) is None ==> (r matches Ok(c) && chunk_of(c, *state, delta, finish_reason, usage)),
{
    let id = match &state.response_id {
        Some(id) => to_owned_string(id.as_str()),
        None => {
            return Err(GatewayError::Stream(to_owned_string("bedrock stream emitted a delta before messageStart")));
        },
    };
    let created = match state.response_created {
        Some(c) => c,
        None => {
            return Err(GatewayError::Stream(to_owned_string("bedrock stream missing response_created metadata")));
        },
    };
    let model = match &state.response_model {
        Some(m) => to_owned_string(m.as_str()),
        None => {
            return Err(GatewayError::Stream(to_owned_string("bedrock stream missing response_model metadata")));
        },
    };
    let mut choices: Vec<ChunkChoice> = Vec::new();
    choices.push(ChunkChoice { index: 0, delta, finish_reason });
    Ok(ChatCompletionChunk { id, created, model, choices, usage })
}

/// The role name of a Bedrock role.
pub open spec fn role_name(role: BedrockRole) -> Seq<char> {
    match role {
        BedrockRole::Assistant => "assistant"@,
        BedrockRole::User => "user"@,
    }
}

fn role_string(role: BedrockRole) -> (r: String)
    ensures
        r@ == role_name(role),
{
    match role {
        BedrockRole::Assistant => to_owned_string("assistant"),
        BedrockRole::User => to_owned_string("user"),
    }
}

/// A streamed tool call fragment in mathematical form: its index, id,
/// type, name and argument text.
pub open spec fn fragment_parts(f: ChunkToolCall) -> (u64, Option<Seq<char>>, Option<Seq<char>>, Option<Seq<char>>, Option<Seq<char>>) {
    (f.index, opt_view(f.id), opt_view(f.kind), opt_view(f.name), opt_view(f.arguments))
}

/// Whether `d` is a delta that carries only this one tool call fragment.
pub open spec fn single_fragment_delta(
    d: ChunkDelta,
    frag: (u64, Option<Seq<char>>, Option<Seq<char>>, Option<Seq<char>>, Option<Seq<char>>),
) -> bool {
    &&& d.role is None
    &&& d.content is None
    &&& d.tool_calls matches Some(v) && v@.len() == 1 && fragment_parts(v@[0]) == frag
}

/// Whether `d` is a delta with nothing in it.
pub open spec fn empty_delta(d: ChunkDelta) -> bool {
    d.role is None && d.content is None && d.tool_calls is None
}

/// The accumulator under a key after a tool use block starts: id, type
/// and name set, argument text kept.
pub open spec fn started_accumulator(
    before: Option<ToolCallAccumulator>,
    after: ToolCallAccumulator,
    id: Seq<char>,
    name: Seq<char>,
) -> bool {
    &&& opt_view(after.id) == Some(id)
    &&& opt_view(after.kind) == Some("function"@)
    &&& opt_view(after.name) == Some(name)
    &&& after.arguments@ == match before {
        Some(b) => b.arguments@,
        None => Seq::empty(),
    }
}

/// The accumulator under a key after tool input arrives: the input is
/// appended to the argument text, the rest kept.
pub open spec fn extended_accumulator(before: Option<ToolCallAccumulator>, after: ToolCallAccumulator, input: Seq<char>) -> bool {
    match before {
        Some(b) => {
            &&& opt_view(after.id) == opt_view(b.id)
            &&& opt_view(after.kind) == opt_view(b.kind)
            &&& opt_view(after.name) == opt_view(b.name)
            &&& after.arguments@ == b.arguments@ + input
        },
        None => {
            &&& after.id is None
            &&& after.kind is None
            &&& after.name is None
            &&& after.arguments@ == input
        },
    }
}

fn copy_accumulator(a: &ToolCallAccumulator) -> (r: ToolCallAccumulator)
    ensures
        opt_view(r.id) == opt_view(a.id),
        opt_view(r.kind) == opt_view(a.kind),
        opt_view(r.name) == opt_view(a.name),
        r.arguments@ == a.arguments@,
{
    ToolCallAccumulator {
        id: crate::text::clone_opt_string(&a.id),
        kind: crate::text::clone_opt_string(&a.kind),
        name: crate::text::clone_opt_string(&a.name),
        arguments: to_owned_string(a.arguments.as_str()),
    }
}

/// The accumulators' key for a content block of the first choice.
pub open spec fn block_key(index: u64) -> (u32, u64) {
    (0u32, index)
}

/// Whether the state's fields other than the accumulators, id, creation
/// time and token counts are as before.
pub open spec fn same_stream_core(a: ChatStreamState, b: ChatStreamState) -> bool {
    &&& a.response_model == b.response_model
    &&& a.chunk_index == b.chunk_index
    &&& a.cache_creation_input_tokens == b.cache_creation_input_tokens
    &&& a.cache_read_input_tokens == b.cache_read_input_tokens
}

/// What a message start does: the response gets an id and a creation time
/// where it had none, and a chunk announces the role.
pub open spec fn start_outcome(
    before: ChatStreamState,
    after: ChatStreamState,
    r: Result<Vec<ChatCompletionChunk>, GatewayError>,
    e: BedrockMessageStartEvent,
) -> bool {
    &&& (before.response_id is Some ==> after.response_id == before.response_id)
    &&& (before.response_id is None ==> (after.response_id matches Some(id) && id@.len() == 44 && id@.subrange(0, 8)
        == "bedrock-"@))
    &&& (before.response_created is Some ==> after.response_created == before.response_created)
    &&& after.accumulators() == before.accumulators()
    &&& after.input_tokens == before.input_tokens
    &&& after.output_tokens == before.output_tokens
    &&& (after.response_created is None ==> before.response_created is None && (r matches Err(x) && x is Internal))
    &&& (after.response_created is Some ==> match chunk_block(after) {
        Some(m) => r matches Err(GatewayError::Stream(x)) && x@ == m,
        None => r matches Ok(cs) && cs@.len() == 1 && exists|d: ChunkDelta|
            #[trigger] chunk_of(cs@[0], after, d, None, None) && opt_view(d.role) == Some(role_name(e.role)) && d.content is None
                && d.tool_calls is None,
    })
}

/// What the start of a content block does: a tool use block opens its
/// accumulator and is announced; other blocks do nothing.
pub open spec fn block_start_outcome(
    before: ChatStreamState,
    after: ChatStreamState,
    r: Result<Vec<ChatCompletionChunk>, GatewayError>,
    e: BedrockContentBlockStartEvent,
) -> bool {
    match e.start {
        Some(BedrockContentBlockStart { tool_use: Some(tu) }) => {
            let key = block_key(e.content_block_index);
            &&& after.response_id == before.response_id
            &&& after.response_created == before.response_created
            &&& after.input_tokens == before.input_tokens
            &&& after.output_tokens == before.output_tokens
            &&& after.accumulators().dom() == before.accumulators().dom().insert(key)
            &&& forall|k: (u32, u64)| k != key ==> #[trigger] after.accumulators().get(k) == before.accumulators().get(k)
            &&& started_accumulator(before.accumulators().get(key), after.accumulators()[key], tu.tool_use_id@, tu.name@)
            &&& match chunk_block(after) {
                Some(m) => r matches Err(GatewayError::Stream(x)) && x@ == m,
                None => r matches Ok(cs) && cs@.len() == 1 && exists|d: ChunkDelta|
                    #[trigger] chunk_of(cs@[0], after, d, None, None) && single_fragment_delta(
                        d,
                        (e.content_block_index, Some(tu.tool_use_id@), Some("function"@), Some(tu.name@), None),
                    ),
            }
        },
        _ => r matches Ok(cs) && cs@.len() == 0 && after == before,
    }
}

/// What a content block delta does: text is passed on; tool input extends
/// its accumulator and is passed on.
pub open spec fn block_delta_outcome(
    before: ChatStreamState,
    after: ChatStreamState,
    r: Result<Vec<ChatCompletionChunk>, GatewayError>,
    e: BedrockContentBlockDeltaEvent,
) -> bool {
    if e.delta.text is Some {
        let t = e.delta.text->0;
        &&& after == before
        &&& match chunk_block(before) {
            Some(m) => r matches Err(GatewayError::Stream(x)) && x@ == m,
            None => r matches Ok(cs) && cs@.len() == 1 && exists|d: ChunkDelta|
                #[trigger] chunk_of(cs@[0], before, d, None, None) && d.role is None && opt_view(d.content) == Some(t@)
                    && d.tool_calls is None,
        }
    } else if e.delta.tool_use is Some {
        let tu = e.delta.tool_use->0;
        let key = block_key(e.content_block_index);
        &&& after.response_id == before.response_id
        &&& after.response_created == before.response_created
        &&& after.input_tokens == before.input_tokens
        &&& after.output_tokens == before.output_tokens
        &&& after.accumulators().dom() == before.accumulators().dom().insert(key)
        &&& forall|k: (u32, u64)| k != key ==> #[trigger] after.accumulators().get(k) == before.accumulators().get(k)
        &&& extended_accumulator(before.accumulators().get(key), after.accumulators()[key], tu.input@)
        &&& match chunk_block(after) {
            Some(m) => r matches Err(GatewayError::Stream(x)) && x@ == m,
            None => r matches Ok(cs) && cs@.len() == 1 && exists|d: ChunkDelta|
                #[trigger] chunk_of(cs@[0], after, d, None, None) && single_fragment_delta(
                    d,
                    (e.content_block_index, None, None, None, Some(tu.input@)),
                ),
        }
    } else {
        r matches Ok(cs) && cs@.len() == 0 && after == before
    }
}

/// What a message stop does: a stop reason becomes a finish chunk.
pub open spec fn message_stop_outcome(
    before: ChatStreamState,
    after: ChatStreamState,
    r: Result<Vec<ChatCompletionChunk>, GatewayError>,
    e: BedrockMessageStopEvent,
) -> bool {
    &&& after == before
    &&& match e.stop_reason {
        None => r matches Ok(cs) && cs@.len() == 0,
        Some(reason) => match chunk_block(before) {
            Some(m) => r matches Err(GatewayError::Stream(x)) && x@ == m,
            None => r matches Ok(cs) && cs@.len() == 1 && exists|d: ChunkDelta, f: String|
                #[trigger] chunk_of(cs@[0], before, d, Some(f), None) && empty_delta(d) && f@ == finish_reason_spec(reason@),
        },
    }
}

/// What metadata does: reported usage is kept and passed on.
pub open spec fn metadata_outcome(
    before: ChatStreamState,
    after: ChatStreamState,
    r: Result<Vec<ChatCompletionChunk>, GatewayError>,
    e: BedrockConverseStreamMetadataEvent,
) -> bool {
    match e.usage {
        None => r matches Ok(cs) && cs@.len() == 0 && after == before,
        Some(u) => {
            &&& after.input_tokens == Some(u.input_tokens)
            &&& after.output_tokens == Some(u.output_tokens)
            &&& after.response_id == before.response_id
            &&& after.response_created == before.response_created
            &&& after.accumulators() == before.accumulators()
            &&& match chunk_block(after) {
                Some(m) => r matches Err(GatewayError::Stream(x)) && x@ == m,
                None => r matches Ok(cs) && cs@.len() == 1 && exists|d: ChunkDelta, cu: ChatCompletionUsage|
                    #[trigger] chunk_of(cs@[0], after, d, None, Some(cu)) && empty_delta(d) && cu.prompt_tokens == u.input_tokens
                        && cu.completion_tokens == u.output_tokens && cu.total_tokens == u.total_tokens,
            }
        },
    }
}

fn on_message_start(e: BedrockMessageStartEvent, state: &mut ChatStreamState) -> (r: Result<Vec<ChatCompletionChunk>, GatewayError>)
    requires
        old(state).keys_distinct(),
    ensures
        final(state).keys_distinct(),
        same_stream_core(*old(state), *final(state)),
        start_outcome(*old(state), *final(state), r, e),
{
    let mut out: Vec<ChatCompletionChunk> = Vec::new();
    if state.response_id.is_none() {
        state.response_id = Some(new_response_id());
    }
    if state.response_created.is_none() {
        let now = current_unix_timestamp()?;
        state.response_created = Some(now);
    }
    let delta = ChunkDelta { role: Some(role_string(e.role)), content: None, tool_calls: None };
    let c = build_bedrock_stream_chunk(state, delta, None, None)?;
    out.push(c);
    proof {
        assert(out@[0] == c);
        assert(chunk_of(out@[0], *state, delta, None, None));
        assert(old(state).response_id is Some ==> state.response_id == old(state).response_id);
        assert(old(state).response_id is None ==> (state.response_id matches Some(id) && id@.len() == 44
            && id@.subrange(0, 8) == "bedrock-"@));
        assert(state.accumulators() == old(state).accumulators());
        assert(chunk_block(*state) is None);
        let r: Result<Vec<ChatCompletionChunk>, GatewayError> = Ok(out);
        assert(r matches Ok(cs) && cs@.len() == 1);
    }
    Ok(out)
}

fn on_block_start(e: BedrockContentBlockStartEvent, state: &mut ChatStreamState) -> (r: Result<Vec<ChatCompletionChunk>, GatewayError>)
    requires
        old(state).keys_distinct(),
    ensures
        final(state).keys_distinct(),
        same_stream_core(*old(state), *final(state)),
        block_start_outcome(*old(state), *final(state), r, e),
{
    let mut out: Vec<ChatCompletionChunk> = Vec::new();
    let tool_use = match e.start {
        Some(start) => match start.tool_use {
            Some(tu) => tu,
            None => {
                return Ok(out);
            },
        },
        None => {
            return Ok(out);
        },
    };
    let key: (u32, u64) = (0, e.content_block_index);
    let ghost before = state.accumulators();
    let arguments = match state.get_accumulator(key) {
        Some(a) => to_owned_string(a.arguments.as_str()),
        None => String::new(),
    };
    let acc = ToolCallAccumulator {
        id: Some(to_owned_string(tool_use.tool_use_id.as_str())),
        kind: Some(to_owned_string("function")),
        name: Some(to_owned_string(tool_use.name.as_str())),
        arguments,
    };
    let ghost accv = acc;
    state.insert_accumulator(key, acc);
    proof {
        assert(state.accumulators()[key] == accv);
        assert(started_accumulator(before.get(key), accv, tool_use.tool_use_id@, tool_use.name@));
        assert(state.accumulators().dom() =~= before.dom().insert(key));
    }
    let mut calls: Vec<ChunkToolCall> = Vec::new();
    calls.push(ChunkToolCall {
        index: e.content_block_index,
        id: Some(tool_use.tool_use_id),
        kind: Some(to_owned_string("function")),
        name: Some(tool_use.name),
        arguments: None,
    });
    let delta = ChunkDelta { role: None, content: None, tool_calls: Some(calls) };
    let c = build_bedrock_stream_chunk(state, delta, None, None)?;
    out.push(c);
    proof {
        assert(out@[0] == c);
        assert(chunk_of(out@[0], *state, delta, None, None));
    }
    Ok(out)
}

fn on_block_delta(e: BedrockContentBlockDeltaEvent, state: &mut ChatStreamState) -> (r: Result<Vec<ChatCompletionChunk>, GatewayError>)
    requires
        old(state).keys_distinct(),
    ensures
        final(state).keys_distinct(),
        same_stream_core(*old(state), *final(state)),
        block_delta_outcome(*old(state), *final(state), r, e),
{
    let ghost e0 = e;
    let mut out: Vec<ChatCompletionChunk> = Vec::new();
    if let Some(text) = e.delta.text {
        let ghost tv = text@;
        assert(e0.delta.text matches Some(t) && t@ == tv);
        let delta = ChunkDelta { role: None, content: Some(text), tool_calls: None };
        let c = build_bedrock_stream_chunk(state, delta, None, None)?;
        out.push(c);
        proof {
            assert(*state == *old(state));
            assert(out@[0] == c);
            assert(chunk_of(out@[0], *old(state), delta, None, None));
            assert(opt_view(delta.content) == Some(tv));
            assert(out@.len() == 1);
        }
        return Ok(out);
    }
    let tool_use = match e.delta.tool_use {
        Some(tu) => tu,
        None => {
            return Ok(out);
        },
    };
    let key: (u32, u64) = (0, e.content_block_index);
    let ghost before = state.accumulators();
    let acc = match state.get_accumulator(key) {
        Some(a) => {
            let mut b = copy_accumulator(a);
            b.arguments = concat(b.arguments.as_str(), tool_use.input.as_str());
            b
        },
        None => {
            let mut b = ToolCallAccumulator::empty();
            b.arguments = to_owned_string(tool_use.input.as_str());
            b
        },
    };
    let ghost accv = acc;
    proof {
        assert(extended_accumulator(before.get(key), accv, tool_use.input@));
    }
    state.insert_accumulator(key, acc);
    proof {
        assert(state.accumulators().dom() =~= before.dom().insert(key));
        assert(state.accumulators()[key] == accv);
    }
    let mut calls: Vec<ChunkToolCall> = Vec::new();
    calls.push(ChunkToolCall {
        index: e.content_block_index,
        id: None,
        kind: None,
        name: None,
        arguments: Some(tool_use.input),
    });
    let ghost frag = (e0.content_block_index, None::<Seq<char>>, None::<Seq<char>>, None::<Seq<char>>, Some(e0.delta.tool_use->0.input@));
    proof {
        assert(fragment_parts(calls@[0]) == frag);
    }
    let delta = ChunkDelta { role: None, content: None, tool_calls: Some(calls) };
    proof {
        assert(single_fragment_delta(delta, frag));
    }
    let c = build_bedrock_stream_chunk(state, delta, None, None)?;
    out.push(c);
    proof {
        assert(out@[0] == c);
        assert(chunk_of(out@[0], *state, delta, None, None));
        let r: Result<Vec<ChatCompletionChunk>, GatewayError> = Ok(out);
        assert(e0.delta.text is None);
        assert(e0.delta.tool_use is Some);
        assert(state.response_id == old(state).response_id);
        assert(state.accumulators().dom() == old(state).accumulators().dom().insert(key));
        assert(extended_accumulator(old(state).accumulators().get(key), state.accumulators()[key], e0.delta.tool_use->0.input@));
        assert(chunk_block(*state) is None);
        assert(r matches Ok(cs) && cs@.len() == 1);
        assert(block_delta_outcome(*old(state), *state, r, e0));
    }
    Ok(out)
}

fn on_message_stop(e: BedrockMessageStopEvent, state: &ChatStreamState) -> (r: Result<Vec<ChatCompletionChunk>, GatewayError>)
    ensures
        message_stop_outcome(*state, *state, r, e),
{
    let mut out: Vec<ChatCompletionChunk> = Vec::new();
    let reason = match e.stop_reason {
        Some(r) => map_finish_reason(r.as_str()),
        None => {
            return Ok(out);
        },
    };
    let delta = ChunkDelta { role: None, content: None, tool_calls: None };
    let ghost f = reason;
    let c = build_bedrock_stream_chunk(state, delta, Some(reason), None)?;
    out.push(c);
    proof {
        assert(out@[0] == c);
        assert(chunk_of(out@[0], *state, delta, Some(f), None));
    }
    Ok(out)
}

fn on_metadata(e: BedrockConverseStreamMetadataEvent, state: &mut ChatStreamState) -> (r: Result<Vec<ChatCompletionChunk>, GatewayError>)
    requires
        old(state).keys_distinct(),
    ensures
        final(state).keys_distinct(),
        same_stream_core(*old(state), *final(state)),
        metadata_outcome(*old(state), *final(state), r, e),
{
    let mut out: Vec<ChatCompletionChunk> = Vec::new();
    let usage = match e.usage {
        Some(u) => u,
        None => {
            return Ok(out);
        },
    };
    state.input_tokens = Some(usage.input_tokens);
    state.output_tokens = Some(usage.output_tokens);
    let delta = ChunkDelta { role: None, content: None, tool_calls: None };
    let cu = bedrock_usage_to_openai_usage(&usage);
    let c = build_bedrock_stream_chunk(state, delta, None, Some(cu))?;
    out.push(c);
    proof {
        assert(out@[0] == c);
        assert(chunk_of(out@[0], *state, delta, None, Some(cu)));
    }
    Ok(out)
}

/// Translates one Bedrock stream event into hub chunks, updating the stream
/// state.
pub fn bedrock_event_to_openai(event: BedrockStreamEvent, state: &mut ChatStreamState) -> (r: Result<Vec<ChatCompletionChunk>, GatewayError>)
    requires
        old(state).keys_distinct(),
    ensures
        final(state).keys_distinct(),
        same_stream_core(*old(state), *final(state)),
        match event {
            BedrockStreamEvent::MessageStart(e) => start_outcome(*old(state), *final(state), r, e),
            BedrockStreamEvent::ContentBlockStart(e) => block_start_outcome(*old(state), *final(state), r, e),
            BedrockStreamEvent::ContentBlockDelta(e) => block_delta_outcome(*old(state), *final(state), r, e),
            BedrockStreamEvent::MessageStop(e) => message_stop_outcome(*old(state), *final(state), r, e),
            BedrockStreamEvent::Metadata(e) => metadata_outcome(*old(state), *final(state), r, e),
            _ => r matches Ok(cs) && cs@.len() == 0 && *final(state) == *old(state),
        },
{
    match event {
        BedrockStreamEvent::MessageStart(e) => on_message_start(e, state),
        BedrockStreamEvent::ContentBlockStart(e) => on_block_start(e, state),
        BedrockStreamEvent::ContentBlockDelta(e) => on_block_delta(e, state),
        BedrockStreamEvent::MessageStop(e) => on_message_stop(e, state),
        BedrockStreamEvent::Metadata(e) => on_metadata(e, state),
        _ => Ok(Vec::new()),
    }
}

/// A tool use block of a Bedrock message.
#[derive(Debug)]
pub struct BedrockToolUseBlock {
    pub tool_use_id: String,
    pub name: String,
    pub input: JsonValue,
}

/// A piece of a tool result.
#[derive(Debug)]
pub enum BedrockToolResultContentBlock {
    Json { json: JsonValue },
    Text { text: String },
}

/// A tool result block of a Bedrock message.
#[derive(Debug)]
pub struct BedrockToolResultBlock {
    pub tool_use_id: String,
    pub content: Vec<BedrockToolResultContentBlock>,
    pub status: Option<String>,
}

/// A content block of a Bedrock message.
#[derive(Debug)]
pub enum BedrockContentBlock {
    Text { text: String },
    ToolUse { tool_use: BedrockToolUseBlock },
    ToolResult { tool_result: BedrockToolResultBlock },
}

/// A Bedrock message.
#[derive(Debug)]
pub struct BedrockMessage {
    pub role: BedrockRole,
    pub content: Vec<BedrockContentBlock>,
}

/// Sampling settings of a Converse request; the sampling parameters are
/// held as the JSON text of the number.
#[derive(Debug)]
pub struct BedrockInferenceConfig {
    pub max_tokens: Option<u32>,
    pub temperature: Option<String>,
    pub top_p: Option<String>,
    pub stop_sequences: Option<Vec<String>>,
}

/// A tool's specification.
#[derive(Debug)]
pub struct BedrockToolSpecification {
    pub name: String,
    pub description: Option<String>,
    pub input_schema: JsonValue,
}

/// A tool offered to the model.
#[derive(Debug)]
pub struct BedrockTool {
    pub tool_spec: BedrockToolSpecification,
}

/// The tools of a Converse request.
#[derive(Debug)]
pub struct BedrockToolConfig {
    pub tools: Vec<BedrockTool>,
    pub tool_choice: Option<BedrockToolChoice>,
}

/// A Converse request.
#[derive(Debug)]
pub struct BedrockConverseRequest {
    pub messages: Vec<BedrockMessage>,
    pub system: Option<Vec<BedrockSystemContentBlock>>,
    pub inference_config: Option<BedrockInferenceConfig>,
    pub tool_config: Option<BedrockToolConfig>,
}

/// The output of a Converse response.
#[derive(Debug)]
pub struct BedrockConverseOutput {
    pub message: BedrockMessage,
}

/// A Converse response.
#[derive(Debug)]
pub struct BedrockConverseResponse {
    pub output: BedrockConverseOutput,
    pub stop_reason: Option<String>,
    pub usage: Option<BedrockUsage>,
}

/// A piece of a tool result in mathematical form.
pub ghost enum ResultV {
    Json(JsonV),
    Text(Seq<char>),
}

/// A content block in mathematical form.
pub ghost enum BlockV {
    Text(Seq<char>),
    ToolUse(Seq<char>, Seq<char>, JsonV),
    ToolResult(Seq<char>, Seq<ResultV>, Option<Seq<char>>),
}

/// A piece of a tool result, by its view.
pub open spec fn result_view(r: BedrockToolResultContentBlock) -> ResultV {
    match r {
        BedrockToolResultContentBlock::Json { json } => ResultV::Json(json@),
        BedrockToolResultContentBlock::Text { text } => ResultV::Text(text@),
    }
}

/// A content block, by its view.
pub open spec fn block_view(b: BedrockContentBlock) -> BlockV {
    match b {
        BedrockContentBlock::Text { text } => BlockV::Text(text@),
        BedrockContentBlock::ToolUse { tool_use } => BlockV::ToolUse(
            tool_use.tool_use_id@,
            tool_use.name@,
            tool_use.input@,
        ),
        BedrockContentBlock::ToolResult { tool_result } => BlockV::ToolResult(
            tool_result.tool_use_id@,
            tool_result.content@.map_values(|r: BedrockToolResultContentBlock| result_view(r)),
            opt_view(tool_result.status),
        ),
    }
}

/// Content blocks, by their views.
pub open spec fn blocks_view(bs: Seq<BedrockContentBlock>) -> Seq<BlockV> {
    bs.map_values(|b: BedrockContentBlock| block_view(b))
}

/// Text blocks for text fragments.
pub open spec fn text_blocks(ts: Seq<Seq<char>>) -> Seq<BlockV> {
    ts.map_values(|t: Seq<char>| BlockV::Text(t))
}

/// The content blocks for message content.
pub fn content_blocks_from_message_content(content: Option<&MessageContent>, role: &str, allow_empty: bool) -> (r: Result<Vec<BedrockContentBlock>, GatewayError>)
    ensures
        match text_fragments_spec(ref_content_view(content), role@, allow_empty) {
            Ok(ts) => r matches Ok(v) && blocks_view(v@) == text_blocks(ts),
            Err(m) => r matches Err(GatewayError::Bridge(e)) && e@ == m,
        },
{
    let texts = text_fragments_from_message_content(content, role, allow_empty)?;
    let mut out: Vec<BedrockContentBlock> = Vec::new();
    let mut i: usize = 0;
    while i < texts.len()
        invariant
            0 <= i <= texts@.len(),
            out@.len() == i,
            forall|j: int| 0 <= j < i ==> block_view(#[trigger] out@[j]) == BlockV::Text(texts@[j]@),
        decreases texts.len() - i,
    {
        out.push(BedrockContentBlock::Text { text: to_owned_string(texts[i].as_str()) });
        i += 1;
    }
    proof {
        assert(blocks_view(out@) =~= text_blocks(strings_view(texts@)));
    }
    Ok(out)
}

/// The concatenation of text fragments.
pub open spec fn joined(ts: Seq<Seq<char>>) -> Seq<char>
    decreases ts.len(),
{
    if ts.len() == 0 {
        Seq::empty()
    } else {
        joined(ts.drop_last()) + ts.last()
    }
}

/// The message for image content in a tool message.
pub open spec fn tool_image_message() -> Seq<char> {
    "bedrock converse tool messages do not support image content"@
}

/// The tool result for a text: its JSON value where it parses as JSON,
/// the text otherwise.
pub open spec fn result_of_text(t: Seq<char>) -> Seq<ResultV> {
    match json_parse(t) {
        Ok(j) => seq![ResultV::Json(j)],
        Err(_) => seq![ResultV::Text(t)],
    }
}

/// The tool result for a tool message's content, or why there is none.
pub open spec fn tool_result_spec(c: Option<ContentV>) -> Result<Seq<ResultV>, Seq<char>> {
    match c {
        None => Ok(seq![ResultV::Text(Seq::empty())]),
        Some(ContentV::Text(t)) => Ok(result_of_text(t)),
        Some(ContentV::Parts(ps)) => if forall|j: int| 0 <= j < ps.len() ==> ps[j] is Text {
            Ok(result_of_text(joined(ps.map_values(|p: PartV| p->Text_0))))
        } else {
            Err(tool_image_message())
        },
    }
}

/// The tool result for a tool message's content: JSON where the text
/// parses as JSON, text otherwise.
pub fn tool_result_content_from_message(content: Option<&MessageContent>) -> (r: Result<Vec<BedrockToolResultContentBlock>, GatewayError>)
    ensures
        match tool_result_spec(ref_content_view(content)) {
            Ok(rs) => r matches Ok(v) && v@.map_values(|x: BedrockToolResultContentBlock| result_view(x)) == rs,
            Err(m) => r matches Err(GatewayError::Bridge(e)) && e@ == m,
        },
{
    let c = match content {
        Some(c) => c,
        None => {
            let mut v: Vec<BedrockToolResultContentBlock> = Vec::new();
            v.push(BedrockToolResultContentBlock::Text { text: String::new() });
            proof {
                assert(v@.map_values(|x: BedrockToolResultContentBlock| result_view(x)) =~= seq![ResultV::Text(Seq::empty())]);
            }
            return Ok(v);
        },
    };
    let text = match c {
        MessageContent::Text(t) => to_owned_string(t.as_str()),
        MessageContent::Parts(parts) => {
            let ghost pv = parts@.map_values(|p: ContentPart| crate::chat::part_view(p));
            let ghost texts = pv.map_values(|p: PartV| p->Text_0);
            let mut acc = String::new();
            let mut i: usize = 0;
            while i < parts.len()
                invariant
                    0 <= i <= parts@.len(),
                    pv == parts@.map_values(|p: ContentPart| crate::chat::part_view(p)),
                    texts == pv.map_values(|p: PartV| p->Text_0),
                    content == Some(c),
                    content_view(*c) == ContentV::Parts(pv),
                    forall|j: int| 0 <= j < i ==> pv[j] is Text,
                    acc@ == joined(texts.take(i as int)),
                decreases parts.len() - i,
            {
                match &parts[i] {
                    ContentPart::Text { text } => {
                        acc = concat(acc.as_str(), text.as_str());
                        proof {
                            assert(texts.take(i + 1).drop_last() =~= texts.take(i as int));
                        }
                    },
                    ContentPart::ImageUrl { .. } => {
                        proof {
                            assert(!(pv[i as int] is Text));
                        }
                        return Err(GatewayError::Bridge(to_owned_string(
                            "bedrock converse tool messages do not support image content",
                        )));
                    },
                }
                i += 1;
            }
            proof {
                assert(texts.take(i as int) =~= texts);
            }
            acc
        },
    };
    let mut v: Vec<BedrockToolResultContentBlock> = Vec::new();
    match parse_json(text.as_str()) {
        Ok(json) => {
            v.push(BedrockToolResultContentBlock::Json { json });
        },
        Err(_) => {
            v.push(BedrockToolResultContentBlock::Text { text });
        },
    }
    proof {
        assert(v@.map_values(|x: BedrockToolResultContentBlock| result_view(x)) =~= result_of_text(text@));
    }
    Ok(v)
}

/// The refusal of a tool call whose arguments are not JSON, with the
/// parser's words.
pub open spec fn tool_arguments_message(name: Seq<char>, parse_error: Seq<char>) -> Seq<char> {
    "invalid assistant tool call arguments for "@ + name + ": "@ + parse_error
}

/// The tool use blocks for an assistant's tool calls, or the refusal of the
/// first call whose arguments are not JSON.
pub open spec fn tool_use_blocks(calls: Seq<ToolCall>) -> Result<Seq<BlockV>, Seq<char>>
    decreases calls.len(),
{
    if calls.len() == 0 {
        Ok(Seq::empty())
    } else {
        match tool_use_blocks(calls.drop_last()) {
            Err(e) => Err(e),
            Ok(bs) => match json_parse(calls.last().arguments@) {
                Ok(j) => Ok(bs.push(BlockV::ToolUse(calls.last().id@, calls.last().name@, j))),
                Err(m) => Err(tool_arguments_message(calls.last().name@, m)),
            },
        }
    }
}

/// The tool calls of a message, none where it has none.
pub open spec fn message_tool_calls(m: ChatMessage) -> Seq<ToolCall> {
    match m.tool_calls {
        Some(v) => v@,
        None => Seq::empty(),
    }
}

/// The message for an assistant message with nothing to send.
pub open spec fn assistant_empty_message() -> Seq<char> {
    "bedrock converse assistant messages require text or tool_calls"@
}

/// The message for a tool message without a call id.
pub open spec fn tool_call_id_message() -> Seq<char> {
    "bedrock converse tool messages require tool_call_id"@
}

/// The content of the Bedrock message for a hub assistant message: its
/// text, then its tool calls.
pub open spec fn assistant_spec(m: ChatMessage) -> Result<Seq<BlockV>, Seq<char>> {
    match text_fragments_spec(opt_content_view(m.content), m.role@, true) {
        Err(e) => Err(e),
        Ok(ts) => match tool_use_blocks(message_tool_calls(m)) {
            Err(e) => Err(e),
            Ok(tb) => if text_blocks(ts).len() + tb.len() == 0 {
                Err(assistant_empty_message())
            } else {
                Ok(text_blocks(ts) + tb)
            },
        },
    }
}

/// The content of the Bedrock message for a hub tool message.
pub open spec fn tool_message_spec(m: ChatMessage) -> Result<Seq<BlockV>, Seq<char>> {
    match m.tool_call_id {
        None => Err(tool_call_id_message()),
        Some(id) => match tool_result_spec(opt_content_view(m.content)) {
            Err(e) => Err(e),
            Ok(rs) => Ok(seq![BlockV::ToolResult(id@, rs, None)]),
        },
    }
}

/// Whether a `Result` of the library is the bridge error with this message.
pub open spec fn err_matches<T>(r: Result<T, GatewayError>, e: Seq<char>) -> bool {
    r matches Err(GatewayError::Bridge(x)) && x@ == e
}

/// The Bedrock message for a hub assistant message.
fn assistant_message_to_bedrock(message: &ChatMessage) -> (r: Result<BedrockMessage, GatewayError>)
    ensures
        match assistant_spec(*message) {
            Ok(bs) => r matches Ok(bm) && bm.role == BedrockRole::Assistant && blocks_view(bm.content@) == bs,
            Err(e) => err_matches(r, e),
        },
{
    let mut content = content_blocks_from_message_content(message.content.as_ref(), message.role.as_str(), true)?;
    let ghost head = blocks_view(content@);
    let ghost calls: Seq<ToolCall> = message_tool_calls(*message);
    if let Some(tool_calls) = &message.tool_calls {
        let mut i: usize = 0;
        while i < tool_calls.len()
            invariant
                0 <= i <= tool_calls@.len(),
                calls == tool_calls@,
                calls == message_tool_calls(*message),
                text_fragments_spec(opt_content_view(message.content), message.role@, true) matches Ok(ts) && head == text_blocks(ts),
                tool_use_blocks(calls.take(i as int)) matches Ok(tb) && blocks_view(content@) == head + tb,
            decreases tool_calls.len() - i,
        {
            let call = &tool_calls[i];
            proof {
                assert(calls.take(i + 1).drop_last() =~= calls.take(i as int));
                assert(calls.take(i + 1).last() == calls[i as int]);
            }
            match parse_json(call.arguments.as_str()) {
                Ok(input) => {
                    let ghost before = blocks_view(content@);
                    content.push(BedrockContentBlock::ToolUse {
                        tool_use: BedrockToolUseBlock {
                            tool_use_id: to_owned_string(call.id.as_str()),
                            name: to_owned_string(call.name.as_str()),
                            input,
                        },
                    });
                    proof {
                        assert(blocks_view(content@) =~= before.push(block_view(content@.last())));
                    }
                },
                Err(msg) => {
                    proof {
                        assert(tool_use_blocks(calls.take(i + 1)) == Err::<Seq<BlockV>, Seq<char>>(tool_arguments_message(call.name@, msg@)));
                        lemma_tool_use_blocks_prefix_err(calls, i as int + 1);
                    }
                    let head_msg = concat("invalid assistant tool call arguments for ", call.name.as_str());
                    let head_msg = concat(head_msg.as_str(), ": ");
                    return Err(GatewayError::Bridge(concat(head_msg.as_str(), msg.as_str())));
                },
            }
            i += 1;
        }
        proof {
            assert(calls.take(i as int) =~= calls);
        }
    } else {
        proof {
            assert(calls.take(0) =~= calls);
            assert(blocks_view(content@) =~= head + Seq::<BlockV>::empty());
        }
    }
    if content.len() == 0 {
        return Err(GatewayError::Bridge(to_owned_string("bedrock converse assistant messages require text or tool_calls")));
    }
    Ok(BedrockMessage { role: BedrockRole::Assistant, content })
}

/// An error in the tool calls up to `i` is the error of all of them.
proof fn lemma_tool_use_blocks_prefix_err(calls: Seq<ToolCall>, i: int)
    requires
        0 <= i <= calls.len(),
        tool_use_blocks(calls.take(i)) is Err,
    ensures
        tool_use_blocks(calls) == tool_use_blocks(calls.take(i)),
    decreases calls.len() - i,
{
    if i < calls.len() {
        assert(calls.take(i + 1).drop_last() =~= calls.take(i));
        lemma_tool_use_blocks_prefix_err(calls, i + 1);
    } else {
        assert(calls.take(i) =~= calls);
    }
}

/// The Bedrock message for a hub tool message.
fn tool_message_to_bedrock(message: &ChatMessage) -> (r: Result<BedrockMessage, GatewayError>)
    ensures
        match tool_message_spec(*message) {
            Ok(bs) => r matches Ok(bm) && bm.role == BedrockRole::User && blocks_view(bm.content@) == bs,
            Err(e) => err_matches(r, e),
        },
{
    let tool_use_id = match &message.tool_call_id {
        Some(id) => to_owned_string(id.as_str()),
        None => {
            return Err(GatewayError::Bridge(to_owned_string("bedrock converse tool messages require tool_call_id")));
        },
    };
    let content = tool_result_content_from_message(message.content.as_ref())?;
    let mut blocks: Vec<BedrockContentBlock> = Vec::new();
    blocks.push(BedrockContentBlock::ToolResult {
        tool_result: BedrockToolResultBlock { tool_use_id, content, status: None },
    });
    proof {
        assert(blocks_view(blocks@) =~= seq![block_view(blocks@[0])]);
    }
    Ok(BedrockMessage { role: BedrockRole::User, content: blocks })
}

/// The default input schema of a tool without parameters: an object with
/// no properties.
pub open spec fn default_schema() -> JsonV {
    JsonV::Object(seq![("properties"@, JsonV::Object(Seq::empty())), ("type"@, JsonV::Str("object"@))])
}

fn default_schema_value() -> (r: JsonValue)
    ensures
        r@ == default_schema(),
{
    let mut fields: Vec<(String, JsonValue)> = Vec::new();
    let empty = JsonValue::Object(Vec::new());
    proof {
        assert(empty@->Object_0 =~= Seq::<(Seq<char>, JsonV)>::empty());
    }
    fields.push((to_owned_string("properties"), empty));
    let obj = JsonValue::Str(to_owned_string("object"));
    proof {
        assert(obj@ == JsonV::Str("object"@));
    }
    fields.push((to_owned_string("type"), obj));
    let r = JsonValue::Object(fields);
    proof {
        let v = r@->Object_0;
        assert(v.len() == 2);
        assert(v[0] == ("properties"@, JsonV::Object(Seq::empty())));
        assert(v[1] == ("type"@, JsonV::Str("object"@)));
        assert(v =~= default_schema()->Object_0);
    }
    r
}

/// A tool specification in mathematical form: name, description, schema.
pub ghost struct ToolSpecV {
    pub name: Seq<char>,
    pub description: Option<Seq<char>>,
    pub schema: JsonV,
}

/// A Bedrock tool, by its view.
pub open spec fn bedrock_tool_view(t: BedrockTool) -> ToolSpecV {
    ToolSpecV { name: t.tool_spec.name@, description: opt_view(t.tool_spec.description), schema: t.tool_spec.input_schema@ }
}

/// The Bedrock specification of a hub function tool.
pub open spec fn tool_spec_of(f: crate::chat::FunctionTool) -> ToolSpecV {
    ToolSpecV {
        name: f.name@,
        description: opt_view(f.description),
        schema: match f.parameters {
            Some(p) => p@,
            None => default_schema(),
        },
    }
}

/// The message for a tool that is not a function.
pub open spec fn tool_type_message(t: Seq<char>) -> Seq<char> {
    "bedrock converse only supports function tools, got "@ + t
}

/// The Bedrock form of a hub tool; only function tools are accepted.
pub fn openai_tool_to_bedrock(tool: &crate::chat::FunctionTool) -> (r: Result<BedrockTool, GatewayError>)
    ensures
        tool.tool_type@ == "function"@ ==> (r matches Ok(t) && bedrock_tool_view(t) == tool_spec_of(*tool)),
        tool.tool_type@ != "function"@ ==> (r matches Err(GatewayError::Bridge(e)) && e@ == tool_type_message(tool.tool_type@)),
{
    if !str_eq(tool.tool_type.as_str(), "function") {
        return Err(GatewayError::Bridge(concat("bedrock converse only supports function tools, got ", tool.tool_type.as_str())));
    }
    let schema = match &tool.parameters {
        Some(p) => p.duplicate(),
        None => default_schema_value(),
    };
    Ok(BedrockTool {
        tool_spec: BedrockToolSpecification {
            name: to_owned_string(tool.name.as_str()),
            description: crate::text::clone_opt_string(&tool.description),
            input_schema: schema,
        },
    })
}

/// The message for a tool choice without tools.
pub open spec fn choice_without_tools_message() -> Seq<char> {
    "bedrock converse tool_choice requires tools"@
}

/// The first tool that is not a function, if any.
pub open spec fn first_non_function(ts: Seq<crate::chat::FunctionTool>) -> Option<Seq<char>>
    decreases ts.len(),
{
    if ts.len() == 0 {
        None
    } else {
        match first_non_function(ts.drop_last()) {
            Some(t) => Some(t),
            None => if ts.last().tool_type@ != "function"@ {
                Some(ts.last().tool_type@)
            } else {
                None
            },
        }
    }
}

/// The Bedrock tool configuration for hub tools and tool choice, or why
/// there is none.
pub open spec fn tool_config_spec(tools: Option<Seq<crate::chat::FunctionTool>>, choice: Option<ToolChoice>) -> Result<Option<(Seq<ToolSpecV>, Option<BedrockChoiceV>)>, Seq<char>> {
    match tools {
        None => if choice is Some {
            Err(choice_without_tools_message())
        } else {
            Ok(None)
        },
        Some(ts) => match first_non_function(ts) {
            Some(t) => Err(tool_type_message(t)),
            None => match choice {
                None => Ok(Some((ts.map_values(|f: crate::chat::FunctionTool| tool_spec_of(f)), None))),
                Some(c) => match bedrock_choice_spec(tool_choice_view(c)) {
                    Err(m) => Err(m),
                    Ok(bc) => Ok(Some((ts.map_values(|f: crate::chat::FunctionTool| tool_spec_of(f)), Some(bc)))),
                },
            },
        },
    }
}

/// A tool configuration, by its view.
pub open spec fn tool_config_view(c: BedrockToolConfig) -> (Seq<ToolSpecV>, Option<BedrockChoiceV>) {
    (
        c.tools@.map_values(|t: BedrockTool| bedrock_tool_view(t)),
        match c.tool_choice {
            Some(b) => Some(bedrock_choice_view(b)),
            None => None,
        },
    )
}

proof fn lemma_first_non_function_prefix(ts: Seq<crate::chat::FunctionTool>, i: int)
    requires
        0 <= i <= ts.len(),
        first_non_function(ts.take(i)) is Some,
    ensures
        first_non_function(ts) == first_non_function(ts.take(i)),
    decreases ts.len() - i,
{
    if i < ts.len() {
        assert(ts.take(i + 1).drop_last() =~= ts.take(i));
        lemma_first_non_function_prefix(ts, i + 1);
    } else {
        assert(ts.take(i) =~= ts);
    }
}

/// The Bedrock tool configuration for hub tools and tool choice.
pub fn build_tool_config(tools: Option<&Vec<crate::chat::FunctionTool>>, tool_choice: Option<&ToolChoice>) -> (r: Result<Option<BedrockToolConfig>, GatewayError>)
    ensures
        match tool_config_spec(
            match tools {
                Some(v) => Some(v@),
                None => None,
            },
            match tool_choice {
                Some(c) => Some(*c),
                None => None,
            },
        ) {
            Ok(None) => r matches Ok(None),
            Ok(Some(cv)) => r matches Ok(Some(c)) && tool_config_view(c) == cv,
            Err(m) => r matches Err(GatewayError::Bridge(e)) && e@ == m,
        },
{
    let ts = match tools {
        Some(ts) => ts,
        None => {
            if tool_choice.is_some() {
                return Err(GatewayError::Bridge(to_owned_string("bedrock converse tool_choice requires tools")));
            }
            return Ok(None);
        },
    };
    let mut out: Vec<BedrockTool> = Vec::new();
    let mut i: usize = 0;
    while i < ts.len()
        invariant
            0 <= i <= ts@.len(),
            out@.len() == i,
            tools == Some(ts),
            first_non_function(ts@.take(i as int)) is None,
            forall|j: int| 0 <= j < i ==> bedrock_tool_view(#[trigger] out@[j]) == tool_spec_of(ts@[j]),
        decreases ts.len() - i,
    {
        proof {
            assert(ts@.take(i + 1).drop_last() =~= ts@.take(i as int));
            assert(ts@.take(i + 1).last() == ts@[i as int]);
        }
        match openai_tool_to_bedrock(&ts[i]) {
            Ok(t) => {
                out.push(t);
            },
            Err(e) => {
                proof {
                    lemma_first_non_function_prefix(ts@, i + 1);
                }
                return Err(e);
            },
        }
        i += 1;
    }
    proof {
        assert(ts@.take(i as int) =~= ts@);
        assert(out@.map_values(|t: BedrockTool| bedrock_tool_view(t)) =~= ts@.map_values(
            |f: crate::chat::FunctionTool| tool_spec_of(f),
        ));
    }
    let choice = match tool_choice {
        Some(c) => Some(openai_tool_choice_to_bedrock(c)?),
        None => None,
    };
    Ok(Some(BedrockToolConfig { tools: out, tool_choice: choice }))
}

/// The stop sequences a hub stop condition gives.
pub open spec fn stop_sequences_spec(stop: Option<crate::chat::StopCondition>) -> Option<Seq<Seq<char>>> {
    match stop {
        Some(crate::chat::StopCondition::Single(s)) => Some(seq![s@]),
        Some(crate::chat::StopCondition::Multiple(v)) => Some(strings_view(v@)),
        None => None,
    }
}

/// Whether `c` is the inference configuration for the request: the token
/// limit (`max_completion_tokens`, else `max_tokens`), sampling and stop
/// sequences, or none where none of them is set.
pub open spec fn inference_config_of(req: ChatCompletionRequest, c: Option<BedrockInferenceConfig>) -> bool {
    let max = if req.max_completion_tokens is Some {
        req.max_completion_tokens
    } else {
        req.max_tokens
    };
    let stops = stop_sequences_spec(req.stop);
    if max is None && req.temperature is None && req.top_p is None && stops is None {
        c is None
    } else {
        c matches Some(cfg) && cfg.max_tokens == max && opt_view(cfg.temperature) == opt_view(req.temperature)
            && opt_view(cfg.top_p) == opt_view(req.top_p) && match cfg.stop_sequences {
            Some(v) => stops == Some(strings_view(v@)),
            None => stops is None,
        }
    }
}

/// The inference configuration for a hub request.
pub fn build_inference_config(request: &ChatCompletionRequest) -> (r: Option<BedrockInferenceConfig>)
    ensures
        inference_config_of(*request, r),
{
    let stop_sequences = match &request.stop {
        Some(crate::chat::StopCondition::Single(stop)) => {
            let mut v: Vec<String> = Vec::new();
            v.push(to_owned_string(stop.as_str()));
            proof {
                assert(strings_view(v@) =~= seq![stop@]);
            }
            Some(v)
        },
        Some(crate::chat::StopCondition::Multiple(stops)) => {
            let v = crate::text::clone_strings(stops);
            proof {
                assert(strings_view(v@) =~= strings_view(stops@));
            }
            Some(v)
        },
        None => None,
    };
    let max_tokens = match request.max_completion_tokens {
        Some(m) => Some(m),
        None => request.max_tokens,
    };
    if max_tokens.is_none() && request.temperature.is_none() && request.top_p.is_none() && stop_sequences.is_none() {
        return None;
    }
    Some(BedrockInferenceConfig {
        max_tokens,
        temperature: crate::text::clone_opt_string(&request.temperature),
        top_p: crate::text::clone_opt_string(&request.top_p),
        stop_sequences,
    })
}

/// A Bedrock message in mathematical form.
pub ghost struct MessageV {
    pub role: BedrockRole,
    pub content: Seq<BlockV>,
}

/// A Bedrock message, by its view.
pub open spec fn message_view(m: BedrockMessage) -> MessageV {
    MessageV { role: m.role, content: blocks_view(m.content@) }
}

/// The message for a message role Bedrock has no place for.
pub open spec fn role_message(role: Seq<char>) -> Seq<char> {
    "bedrock converse does not support message role "@ + role
}

/// The Bedrock messages and system texts for hub messages, in order, or
/// the error of the first message that cannot be converted.
pub open spec fn convert_messages(ms: Seq<ChatMessage>) -> Result<(Seq<MessageV>, Seq<Seq<char>>), Seq<char>>
    decreases ms.len(),
{
    if ms.len() == 0 {
        Ok((Seq::empty(), Seq::empty()))
    } else {
        match convert_messages(ms.drop_last()) {
            Err(e) => Err(e),
            Ok((msgs, sys)) => {
                let m = ms.last();
                let role = m.role@;
                if role == "system"@ || role == "developer"@ {
                    match text_fragments_spec(opt_content_view(m.content), role, false) {
                        Ok(ts) => Ok((msgs, sys + ts)),
                        Err(e) => Err(e),
                    }
                } else if role == "user"@ {
                    match text_fragments_spec(opt_content_view(m.content), role, false) {
                        Ok(ts) => Ok((msgs.push(MessageV { role: BedrockRole::User, content: text_blocks(ts) }), sys)),
                        Err(e) => Err(e),
                    }
                } else if role == "assistant"@ {
                    match assistant_spec(m) {
                        Ok(bs) => Ok((msgs.push(MessageV { role: BedrockRole::Assistant, content: bs }), sys)),
                        Err(e) => Err(e),
                    }
                } else if role == "tool"@ {
                    match tool_message_spec(m) {
                        Ok(bs) => Ok((msgs.push(MessageV { role: BedrockRole::User, content: bs }), sys)),
                        Err(e) => Err(e),
                    }
                } else {
                    Err(role_message(role))
                }
            },
        }
    }
}

proof fn lemma_convert_prefix_err(ms: Seq<ChatMessage>, i: int)
    requires
        0 <= i <= ms.len(),
        convert_messages(ms.take(i)) is Err,
    ensures
        convert_messages(ms) == convert_messages(ms.take(i)),
    decreases ms.len() - i,
{
    if i < ms.len() {
        assert(ms.take(i + 1).drop_last() =~= ms.take(i));
        lemma_convert_prefix_err(ms, i + 1);
    } else {
        assert(ms.take(i) =~= ms);
    }
}

/// The message for a request that asks for more than one choice.
pub open spec fn choice_count_message() -> Seq<char> {
    "bedrock converse only supports n = 1"@
}

/// Why a hub request cannot go to Bedrock Converse, if it cannot.
pub open spec fn bedrock_request_error(req: ChatCompletionRequest) -> Option<Seq<char>> {
    if req.n matches Some(c) && c != 1 {
        Some(choice_count_message())
    } else {
        match convert_messages(req.messages@) {
            Err(e) => Some(e),
            Ok(_) => match tool_config_spec(
                match req.tools {
                    Some(v) => Some(v@),
                    None => None,
                },
                req.tool_choice,
            ) {
                Err(m) => Some(m),
                Ok(_) => None,
            },
        }
    }
}

/// Whether `b` is the Converse request for `req`.
pub open spec fn bedrock_request_of(req: ChatCompletionRequest, b: BedrockConverseRequest) -> bool {
    &&& convert_messages(req.messages@) matches Ok((msgs, sys)) && {
        &&& b.messages@.map_values(|m: BedrockMessage| message_view(m)) == msgs
        &&& match b.system {
            Some(v) => sys.len() > 0 && v@.map_values(|x: BedrockSystemContentBlock| x.text@) == sys,
            None => sys.len() == 0,
        }
    }
    &&& inference_config_of(req, b.inference_config)
    &&& tool_config_spec(
        match req.tools {
            Some(v) => Some(v@),
            None => None,
        },
        req.tool_choice,
    ) matches Ok(tc) && match (tc, b.tool_config) {
        (None, None) => true,
        (Some(cv), Some(c)) => tool_config_view(c) == cv,
        _ => false,
    }
}

/// Maps a hub request onto a Bedrock Converse request.
pub fn openai_to_bedrock_request(request: &ChatCompletionRequest) -> (r: Result<BedrockConverseRequest, GatewayError>)
    ensures
        bedrock_request_error(*request) is None ==> (r matches Ok(b) && bedrock_request_of(*request, b)),
        bedrock_request_error(*request) matches Some(e) ==> err_matches(r, e),
{
    if let Some(count) = request.n {
        if count != 1 {
            return Err(GatewayError::Bridge(to_owned_string("bedrock converse only supports n = 1")));
        }
    }
    let ghost ms = request.messages@;
    let mut messages: Vec<BedrockMessage> = Vec::new();
    let mut system: Vec<BedrockSystemContentBlock> = Vec::new();
    let mut i: usize = 0;
    proof {
        assert(ms.take(0) =~= Seq::<ChatMessage>::empty());
        assert(messages@.map_values(|m: BedrockMessage| message_view(m)) =~= Seq::<MessageV>::empty());
        assert(system@.map_values(|x: BedrockSystemContentBlock| x.text@) =~= Seq::<Seq<char>>::empty());
    }
    while i < request.messages.len()
        invariant
            0 <= i <= ms.len(),
            ms == request.messages@,
            !(request.n matches Some(c) && c != 1),
            convert_messages(ms.take(i as int)) == Ok::<(Seq<MessageV>, Seq<Seq<char>>), Seq<char>>((
                messages@.map_values(|m: BedrockMessage| message_view(m)),
                system@.map_values(|x: BedrockSystemContentBlock| x.text@),
            )),
        decreases ms.len() - i,
    {
        let message = &request.messages[i];
        let ghost mv = messages@.map_values(|m: BedrockMessage| message_view(m));
        let ghost sv = system@.map_values(|x: BedrockSystemContentBlock| x.text@);
        proof {
            assert(ms.take(i + 1).drop_last() =~= ms.take(i as int));
            assert(ms.take(i + 1).last() == ms[i as int]);
        }
        let role = message.role.as_str();
        if str_eq(role, "system") || str_eq(role, "developer") {
            match system_blocks_from_content(message.content.as_ref(), role) {
                Ok(blocks) => {
                    let mut k: usize = 0;
                    while k < blocks.len()
                        invariant
                            0 <= k <= blocks@.len(),
                            system@.len() == sv.len() + k,
                            forall|j: int| 0 <= j < sv.len() ==> (#[trigger] system@[j]).text@ == sv[j],
                            forall|j: int| 0 <= j < k ==> (#[trigger] system@[sv.len() + j]).text@ == blocks@[j].text@,
                        decreases blocks.len() - k,
                    {
                        system.push(BedrockSystemContentBlock { text: to_owned_string(blocks[k].text.as_str()) });
                        k += 1;
                    }
                    proof {
                        let ts = blocks@.map_values(|x: BedrockSystemContentBlock| x.text@);
                        assert forall|j: int| 0 <= j < system@.len() implies system@.map_values(
                            |x: BedrockSystemContentBlock| x.text@,
                        )[j] == (sv + ts)[j] by {
                            if j >= sv.len() {
                                assert(system@[sv.len() + (j - sv.len())].text@ == blocks@[j - sv.len()].text@);
                            }
                        }
                        assert(system@.map_values(|x: BedrockSystemContentBlock| x.text@) =~= sv + ts);
                        let tsv = text_fragments_spec(opt_content_view(message.content), message.role@, false)->Ok_0;
                        assert(ts =~= tsv);
                        assert(messages@.map_values(|m: BedrockMessage| message_view(m)) == mv);
                        assert(convert_messages(ms.take(i + 1)) == Ok::<(Seq<MessageV>, Seq<Seq<char>>), Seq<char>>((
                            mv,
                            sv + ts,
                        )));
                    }
                },
                Err(e) => {
                    proof {
                        lemma_convert_prefix_err(ms, i + 1);
                    }
                    return Err(e);
                },
            }
        } else if str_eq(role, "user") {
            match content_blocks_from_message_content(message.content.as_ref(), role, false) {
                Ok(content) => {
                    messages.push(BedrockMessage { role: BedrockRole::User, content });
                    proof {
                        assert(messages@.map_values(|m: BedrockMessage| message_view(m)) =~= mv.push(
                            message_view(messages@.last()),
                        ));
                    }
                },
                Err(e) => {
                    proof {
                        lemma_convert_prefix_err(ms, i + 1);
                    }
                    return Err(e);
                },
            }
        } else if str_eq(role, "assistant") {
            match assistant_message_to_bedrock(message) {
                Ok(m) => {
                    messages.push(m);
                    proof {
                        assert(messages@.map_values(|m: BedrockMessage| message_view(m)) =~= mv.push(
                            message_view(messages@.last()),
                        ));
                    }
                },
                Err(e) => {
                    proof {
                        lemma_convert_prefix_err(ms, i + 1);
                    }
                    return Err(e);
                },
            }
        } else if str_eq(role, "tool") {
            match tool_message_to_bedrock(message) {
                Ok(m) => {
                    messages.push(m);
                    proof {
                        assert(messages@.map_values(|m: BedrockMessage| message_view(m)) =~= mv.push(
                            message_view(messages@.last()),
                        ));
                    }
                },
                Err(e) => {
                    proof {
                        lemma_convert_prefix_err(ms, i + 1);
                    }
                    return Err(e);
                },
            }
        } else {
            proof {
                lemma_convert_prefix_err(ms, i + 1);
            }
            return Err(GatewayError::Bridge(concat("bedrock converse does not support message role ", role)));
        }
        i += 1;
    }
    proof {
        assert(ms.take(i as int) =~= ms);
    }
    let inference_config = build_inference_config(request);
    let tool_config = build_tool_config(request.tools.as_ref(), request.tool_choice.as_ref())?;
    let system = if system.len() > 0 {
        Some(system)
    } else {
        None
    };
    Ok(BedrockConverseRequest { messages, system, inference_config, tool_config })
}

/// The texts and tool calls (id, name, argument text) of a Bedrock reply's
/// blocks, or none where a block is a tool result.
pub open spec fn reply_parts(bs: Seq<BlockV>) -> Option<(Seq<Seq<char>>, Seq<(Seq<char>, Seq<char>, Seq<char>)>)>
    decreases bs.len(),
{
    if bs.len() == 0 {
        Some((Seq::empty(), Seq::empty()))
    } else {
        match reply_parts(bs.drop_last()) {
            None => None,
            Some((ts, cs)) => match bs.last() {
                BlockV::Text(t) => Some((ts.push(t), cs)),
                BlockV::ToolUse(id, name, input) => Some((ts, cs.push((id, name, json_text(input))))),
                BlockV::ToolResult(..) => None,
            },
        }
    }
}

/// The message for a reply that holds a tool result.
pub open spec fn reply_tool_result_message() -> Seq<char> {
    "bedrock assistant response unexpectedly contained toolResult"@
}

/// A hub tool call, as (id, name, argument text), with its type.
pub open spec fn call_parts(c: ToolCall) -> (Seq<char>, Seq<char>, Seq<char>) {
    (c.id@, c.name@, c.arguments@)
}

/// Whether `content` is the hub content for reply texts: their
/// concatenation, or none where there are none.
pub open spec fn reply_content(ts: Seq<Seq<char>>, content: Option<MessageContent>) -> bool {
    if ts.len() == 0 {
        content is None
    } else {
        opt_content_view(content) == Some(ContentV::Text(joined(ts)))
    }
}

proof fn lemma_reply_parts_prefix_none(bs: Seq<BlockV>, i: int)
    requires
        0 <= i <= bs.len(),
        reply_parts(bs.take(i)) is None,
    ensures
        reply_parts(bs) is None,
    decreases bs.len() - i,
{
    if i < bs.len() {
        assert(bs.take(i + 1).drop_last() =~= bs.take(i));
        lemma_reply_parts_prefix_none(bs, i + 1);
    } else {
        assert(bs.take(i) =~= bs);
    }
}

/// The role, content and tool calls of a Bedrock reply message.
pub fn bedrock_message_to_openai(message: &BedrockMessage) -> (r: Result<(String, Option<MessageContent>, Vec<ToolCall>), GatewayError>)
    ensures
        match reply_parts(blocks_view(message.content@)) {
            None => r matches Err(GatewayError::Transform(e)) && e@ == reply_tool_result_message(),
            Some((ts, cs)) => r matches Ok((role, content, calls)) && role@ == role_name(message.role) && reply_content(
                ts,
                content,
            ) && calls@.map_values(|c: ToolCall| call_parts(c)) == cs && forall|j: int|
                0 <= j < calls@.len() ==> (#[trigger] calls@[j]).kind@ == "function"@,
        },
{
    let ghost bs = blocks_view(message.content@);
    let mut text = String::new();
    let mut text_count: usize = 0;
    let mut calls: Vec<ToolCall> = Vec::new();
    let mut i: usize = 0;
    proof {
        assert(bs.take(0) =~= Seq::<BlockV>::empty());
        assert(calls@.map_values(|c: ToolCall| call_parts(c)) =~= Seq::<(Seq<char>, Seq<char>, Seq<char>)>::empty());
    }
    while i < message.content.len()
        invariant
            0 <= i <= message.content@.len(),
            bs == blocks_view(message.content@),
            text_count <= i,
            reply_parts(bs.take(i as int)) matches Some((ts, cs)) && ts.len() == text_count && text@ == joined(ts)
                && calls@.map_values(|c: ToolCall| call_parts(c)) == cs,
            forall|j: int| 0 <= j < calls@.len() ==> (#[trigger] calls@[j]).kind@ == "function"@,
        decreases message.content.len() - i,
    {
        proof {
            assert(bs.take(i + 1).drop_last() =~= bs.take(i as int));
            assert(bs.take(i + 1).last() == block_view(message.content@[i as int]));
        }
        let ghost ts0 = reply_parts(bs.take(i as int)).unwrap().0;
        let ghost calls0 = calls@;
        match &message.content[i] {
            BedrockContentBlock::Text { text: t } => {
                text = concat(text.as_str(), t.as_str());
                text_count = text_count + 1;
                proof {
                    assert(ts0.push(t@).drop_last() =~= ts0);
                }
            },
            BedrockContentBlock::ToolUse { tool_use } => {
                let arguments = to_json_text(&tool_use.input);
                calls.push(ToolCall {
                    id: to_owned_string(tool_use.tool_use_id.as_str()),
                    kind: to_owned_string("function"),
                    name: to_owned_string(tool_use.name.as_str()),
                    arguments,
                });
                proof {
                    assert(calls@.map_values(|c: ToolCall| call_parts(c)) =~= calls0.map_values(|c: ToolCall| call_parts(c)).push(
                        call_parts(calls@.last()),
                    ));
                }
            },
            BedrockContentBlock::ToolResult { .. } => {
                proof {
                    lemma_reply_parts_prefix_none(bs, i + 1);
                }
                return Err(GatewayError::Transform(to_owned_string(
                    "bedrock assistant response unexpectedly contained toolResult",
                )));
            },
        }
        i += 1;
    }
    proof {
        assert(bs.take(i as int) =~= bs);
    }
    let role = role_string(message.role);
    let content = if text_count > 0 {
        Some(MessageContent::Text(text))
    } else {
        None
    };
    Ok((role, content, calls))
}

/// Maps a Bedrock Converse reply onto a hub response for `request`; the id
/// is fresh and the creation time is the current time.
pub fn bedrock_to_openai_response(request: &ChatCompletionRequest, response: BedrockConverseResponse) -> (r: Result<crate::chat::ChatCompletionResponse, GatewayError>)
    ensures
        reply_parts(blocks_view(response.output.message.content@)) is None ==> (r matches Err(GatewayError::Transform(e))
            && e@ == reply_tool_result_message()),
        reply_parts(blocks_view(response.output.message.content@)) matches Some((ts, cs)) ==> (r is Err ==> r->Err_0 is Internal),
        reply_parts(blocks_view(response.output.message.content@)) matches Some((ts, cs)) ==> (r matches Ok(out) && {
            &&& out.id@.len() == 44
            &&& out.id@.subrange(0, 8) == "bedrock-"@
            &&& out.model@ == request.model@
            &&& out.choices@.len() == 1
            &&& out.choices@[0].index == 0
            &&& out.choices@[0].message.role@ == role_name(response.output.message.role)
            &&& reply_content(ts, out.choices@[0].message.content)
            &&& out.choices@[0].message.name is None
            &&& out.choices@[0].message.tool_call_id is None
            &&& match out.choices@[0].message.tool_calls {
                None => cs.len() == 0,
                Some(v) => cs.len() > 0 && v@.map_values(|c: ToolCall| call_parts(c)) == cs,
            }
            &&& opt_view(out.choices@[0].finish_reason) == match response.stop_reason {
                Some(s) => Some(finish_reason_spec(s@)),
                None => None,
            }
            &&& match response.usage {
                Some(u) => out.usage matches Some(cu) && cu.prompt_tokens == u.input_tokens && cu.completion_tokens
                    == u.output_tokens && cu.total_tokens == u.total_tokens,
                None => out.usage is None,
            }
        }) || r is Err,
{
    let (role, content, calls) = bedrock_message_to_openai(&response.output.message)?;
    let usage = match &response.usage {
        Some(u) => Some(bedrock_usage_to_openai_usage(u)),
        None => None,
    };
    let id = new_response_id();
    let created = current_unix_timestamp()?;
    let tool_calls = if calls.len() > 0 {
        Some(calls)
    } else {
        None
    };
    let finish_reason = match &response.stop_reason {
        Some(s) => Some(map_finish_reason(s.as_str())),
        None => None,
    };
    let mut choices: Vec<crate::chat::ChatChoice> = Vec::new();
    choices.push(crate::chat::ChatChoice {
        index: 0,
        message: ChatMessage { role, content, name: None, tool_calls, tool_call_id: None },
        finish_reason,
    });
    Ok(crate::chat::ChatCompletionResponse { id, created, model: to_owned_string(request.model.as_str()), choices, usage })
}


/// Bedrock's stop reasons in OpenAI's terms: the end of the turn and a stop
/// sequence both stop, the token limit is the length, a tool use asks for
/// tool calls, and any other reason is passed on as it is.
pub proof fn law_finish_reasons(reason: Seq<char>)
    ensures
        finish_reason_spec("end_turn"@) == "stop"@,
        finish_reason_spec("stop_sequence"@) == "stop"@,
        finish_reason_spec("max_tokens"@) == "length"@,
        finish_reason_spec("tool_use"@) == "tool_calls"@,
        reason != "end_turn"@ && reason != "stop_sequence"@ && reason != "max_tokens"@ && reason != "tool_use"@
            ==> finish_reason_spec(reason) == reason,
        reason == "end_turn"@ ==> finish_reason_spec(reason) == "stop"@,
        reason == "stop_sequence"@ ==> finish_reason_spec(reason) == "stop"@,
        reason == "max_tokens"@ ==> finish_reason_spec(reason) == "length"@,
        reason == "tool_use"@ ==> finish_reason_spec(reason) == "tool_calls"@,
{
    reveal_strlit("end_turn");
    reveal_strlit("stop_sequence");
    reveal_strlit("max_tokens");
    reveal_strlit("tool_use");
    assert("max_tokens"@ != "end_turn"@) by {
        assert("max_tokens"@.len() != "end_turn"@.len());
    }
    assert("max_tokens"@ != "stop_sequence"@) by {
        assert("max_tokens"@.len() != "stop_sequence"@.len());
    }
    assert("tool_use"@ != "end_turn"@) by {
        assert("tool_use"@[0] != "end_turn"@[0]);
    }
    assert("tool_use"@ != "stop_sequence"@) by {
        assert("tool_use"@.len() != "stop_sequence"@.len());
    }
    assert("tool_use"@ != "max_tokens"@) by {
        assert("tool_use"@.len() != "max_tokens"@.len());
    }
}

/// A developer message is system text, as a system message is: with the
/// messages before it converted, a developer text adds that text to the
/// system blocks and no Bedrock message.
pub proof fn law_developer_text_is_system(ms: Seq<ChatMessage>, m: ChatMessage, t: Seq<char>)
    requires
        m.role@ == "developer"@,
        opt_content_view(m.content) == Some(ContentV::Text(t)),
        convert_messages(ms) is Ok,
    ensures
        convert_messages(ms.push(m)) == Ok::<(Seq<MessageV>, Seq<Seq<char>>), Seq<char>>(
            (convert_messages(ms)->Ok_0.0, convert_messages(ms)->Ok_0.1.push(t)),
        ),
{
    assert(ms.push(m).drop_last() =~= ms);
    assert(ms.push(m).last() == m);
    assert(convert_messages(ms)->Ok_0.1 + seq![t] =~= convert_messages(ms)->Ok_0.1.push(t));
}

/// A developer text followed by a user text becomes one system block, the
/// developer's text, and one user message with the user's text.
pub proof fn law_developer_then_user(dev: ChatMessage, user: ChatMessage, t: Seq<char>, u: Seq<char>)
    requires
        dev.role@ == "developer"@,
        opt_content_view(dev.content) == Some(ContentV::Text(t)),
        user.role@ == "user"@,
        opt_content_view(user.content) == Some(ContentV::Text(u)),
    ensures
        convert_messages(seq![dev, user]) == Ok::<(Seq<MessageV>, Seq<Seq<char>>), Seq<char>>(
            (seq![MessageV { role: BedrockRole::User, content: seq![BlockV::Text(u)] }], seq![t]),
        ),
{
    let ms = seq![dev, user];
    assert(seq![dev].drop_last() =~= Seq::<ChatMessage>::empty());
    assert(convert_messages(Seq::<ChatMessage>::empty()) == Ok::<(Seq<MessageV>, Seq<Seq<char>>), Seq<char>>(
        (Seq::empty(), Seq::empty()),
    ));
    assert(seq![dev].last() == dev);
    assert(Seq::<Seq<char>>::empty() + seq![t] =~= seq![t]);
    assert(convert_messages(seq![dev]) == Ok::<(Seq<MessageV>, Seq<Seq<char>>), Seq<char>>(
        (Seq::empty(), seq![t]),
    ));
    assert(ms.drop_last() =~= seq![dev]);
    assert(ms.last() == user);
    reveal_strlit("user");
    reveal_strlit("system");
    reveal_strlit("developer");
    assert("user"@ != "system"@) by {
        assert("user"@.len() != "system"@.len());
    }
    assert("user"@ != "developer"@) by {
        assert("user"@.len() != "developer"@.len());
    }
    assert(text_blocks(seq![u]) =~= seq![BlockV::Text(u)]);
    assert(Seq::<MessageV>::empty().push(MessageV { role: BedrockRole::User, content: text_blocks(seq![u]) })
        =~= seq![MessageV { role: BedrockRole::User, content: seq![BlockV::Text(u)] }]);
}

} // verus!
