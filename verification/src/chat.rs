//! The hub format that every provider request and response passes through
//! (Chat Completions), the Responses API format bridged onto it, and token
//! usage accounting shared by both.
use vstd::prelude::*;

use crate::json::{JsonV, JsonValue};
use crate::text::opt_view;

verus! {

/// Token usage as the gateway accounts it.
#[derive(Debug)]
pub struct Usage {
    pub input_tokens: Option<u64>,
    pub output_tokens: Option<u64>,
    pub total_tokens: Option<u64>,
    pub input_audio_tokens: Option<u64>,
    pub output_audio_tokens: Option<u64>,
    pub cache_read_input_tokens: Option<u64>,
    pub cache_creation_input_tokens: Option<u64>,
}

/// The value of a count after a merge: a reported value replaces the
/// current one, an absent one keeps it.
pub open spec fn merged_count(current: Option<u64>, reported: Option<u64>) -> Option<u64> {
    match reported {
        Some(n) => Some(n),
        None => current,
    }
}

/// The total of a usage: the reported total, or else the sum of input and
/// output where both are known and the sum fits.
pub open spec fn resolved_total_spec(u: Usage) -> Option<u64> {
    match u.total_tokens {
        Some(t) => Some(t),
        None => match (u.input_tokens, u.output_tokens) {
            (Some(a), Some(b)) => if a + b <= u64::MAX {
                Some((a + b) as u64)
            } else {
                None
            },
            _ => None,
        },
    }
}

/// A usage with a later report folded in, count by count.
pub open spec fn merged_usage(current: Usage, reported: Usage) -> Usage {
    Usage {
        input_tokens: merged_count(current.input_tokens, reported.input_tokens),
        output_tokens: merged_count(current.output_tokens, reported.output_tokens),
        total_tokens: merged_count(current.total_tokens, reported.total_tokens),
        input_audio_tokens: merged_count(current.input_audio_tokens, reported.input_audio_tokens),
        output_audio_tokens: merged_count(current.output_audio_tokens, reported.output_audio_tokens),
        cache_read_input_tokens: merged_count(current.cache_read_input_tokens, reported.cache_read_input_tokens),
        cache_creation_input_tokens: merged_count(
            current.cache_creation_input_tokens,
            reported.cache_creation_input_tokens,
        ),
    }
}

impl Usage {
    /// The usage with no count known.
    pub open spec fn empty_spec() -> Usage {
        Usage {
            input_tokens: None,
            output_tokens: None,
            total_tokens: None,
            input_audio_tokens: None,
            output_audio_tokens: None,
            cache_read_input_tokens: None,
            cache_creation_input_tokens: None,
        }
    }

    /// A copy of this usage.
    pub fn copy(&self) -> (r: Usage)
        ensures
            r == *self,
    {
        Usage {
            input_tokens: self.input_tokens,
            output_tokens: self.output_tokens,
            total_tokens: self.total_tokens,
            input_audio_tokens: self.input_audio_tokens,
            output_audio_tokens: self.output_audio_tokens,
            cache_read_input_tokens: self.cache_read_input_tokens,
            cache_creation_input_tokens: self.cache_creation_input_tokens,
        }
    }

    /// No usage known.
    pub fn empty() -> (r: Usage)
        ensures
            r.input_tokens is None,
            r.output_tokens is None,
            r.total_tokens is None,
            r.input_audio_tokens is None,
            r.output_audio_tokens is None,
            r.cache_read_input_tokens is None,
            r.cache_creation_input_tokens is None,
    {
        Usage {
            input_tokens: None,
            output_tokens: None,
            total_tokens: None,
            input_audio_tokens: None,
            output_audio_tokens: None,
            cache_read_input_tokens: None,
            cache_creation_input_tokens: None,
        }
    }

    /// Folds a later report into this usage: each count that the report
    /// carries replaces the current one.
    pub fn merge(&mut self, other: &Usage)
        ensures
            *final(self) == merged_usage(*old(self), *other),
    {
        if let Some(n) = other.input_tokens {
            self.input_tokens = Some(n);
        }
        if let Some(n) = other.output_tokens {
            self.output_tokens = Some(n);
        }
        if let Some(n) = other.total_tokens {
            self.total_tokens = Some(n);
        }
        if let Some(n) = other.input_audio_tokens {
            self.input_audio_tokens = Some(n);
        }
        if let Some(n) = other.output_audio_tokens {
            self.output_audio_tokens = Some(n);
        }
        if let Some(n) = other.cache_read_input_tokens {
            self.cache_read_input_tokens = Some(n);
        }
        if let Some(n) = other.cache_creation_input_tokens {
            self.cache_creation_input_tokens = Some(n);
        }
    }

    /// The total token count, derived from input and output where no total
    /// was reported.
    pub fn resolved_total_tokens(&self) -> (r: Option<u64>)
        ensures
            r == resolved_total_spec(*self),
    {
        match self.total_tokens {
            Some(t) => Some(t),
            None => match (self.input_tokens, self.output_tokens) {
                (Some(a), Some(b)) => a.checked_add(b),
                _ => None,
            },
        }
    }
}

/// The breakdown of prompt tokens.
#[derive(Clone, Copy, Debug, PartialEq, Eq, Structural)]
pub struct PromptTokensDetails {
    pub cached_tokens: Option<u64>,
    pub audio_tokens: Option<u64>,
}

/// The breakdown of completion tokens.
#[derive(Clone, Copy, Debug, PartialEq, Eq, Structural)]
pub struct CompletionTokensDetails {
    pub reasoning_tokens: Option<u64>,
    pub audio_tokens: Option<u64>,
}

/// Token counts of a Chat Completions response.
#[derive(Clone, Copy, Debug, PartialEq, Eq, Structural)]
pub struct ChatCompletionUsage {
    pub prompt_tokens: u64,
    pub completion_tokens: u64,
    pub total_tokens: u64,
    pub prompt_tokens_details: Option<PromptTokensDetails>,
    pub completion_tokens_details: Option<CompletionTokensDetails>,
}

/// One part of a multi-part message.
#[derive(Debug)]
pub enum ContentPart {
    Text { text: String },
    ImageUrl { url: String, detail: Option<String> },
}

/// The content of a chat message.
#[derive(Debug)]
pub enum MessageContent {
    Text(String),
    Parts(Vec<ContentPart>),
}

/// A tool call made by the assistant.
#[derive(Debug)]
pub struct ToolCall {
    pub id: String,
    pub kind: String,
    pub name: String,
    pub arguments: String,
}

/// A chat message.
#[derive(Debug)]
pub struct ChatMessage {
    pub role: String,
    pub content: Option<MessageContent>,
    pub name: Option<String>,
    pub tool_calls: Option<Vec<ToolCall>>,
    pub tool_call_id: Option<String>,
}

/// A function the model may call.
#[derive(Debug)]
pub struct FunctionTool {
    pub tool_type: String,
    pub name: String,
    pub description: Option<String>,
    pub parameters: Option<JsonValue>,
    pub strict: Option<bool>,
}

/// How the model should pick tools.
#[derive(Debug)]
pub enum ToolChoice {
    /// `none`, `auto` or `required`.
    Mode(String),
    /// Call exactly this function.
    Function { kind: String, name: String },
}

/// The requested response format.
#[derive(Debug)]
pub struct ResponseFormat {
    pub format_type: String,
    pub json_schema: Option<JsonValue>,
}

/// Where generation stops.
#[derive(Debug)]
pub enum StopCondition {
    Single(String),
    Multiple(Vec<String>),
}

/// A Chat Completions request. Sampling parameters are held as the JSON
/// text of the number that the client sent.
#[derive(Debug)]
pub struct ChatCompletionRequest {
    pub model: String,
    pub messages: Vec<ChatMessage>,
    pub n: Option<u64>,
    pub stop: Option<StopCondition>,
    pub max_tokens: Option<u32>,
    pub max_completion_tokens: Option<u32>,
    pub logprobs: Option<bool>,
    pub top_logprobs: Option<u64>,
    pub response_format: Option<ResponseFormat>,
    pub stream: Option<bool>,
    pub include_usage: Option<bool>,
    pub temperature: Option<String>,
    pub top_p: Option<String>,
    pub tools: Option<Vec<FunctionTool>>,
    pub tool_choice: Option<ToolChoice>,
    pub parallel_tool_calls: Option<bool>,
}

/// One choice of a Chat Completions response.
#[derive(Debug)]
pub struct ChatChoice {
    pub index: u64,
    pub message: ChatMessage,
    pub finish_reason: Option<String>,
}

/// A Chat Completions response.
#[derive(Debug)]
pub struct ChatCompletionResponse {
    pub id: String,
    pub created: u64,
    pub model: String,
    pub choices: Vec<ChatChoice>,
    pub usage: Option<ChatCompletionUsage>,
}

/// A fragment of a tool call in a streamed delta.
#[derive(Debug)]
pub struct ChunkToolCall {
    pub index: u64,
    pub id: Option<String>,
    pub kind: Option<String>,
    pub name: Option<String>,
    pub arguments: Option<String>,
}

/// What one streamed choice adds.
#[derive(Debug)]
pub struct ChunkDelta {
    pub role: Option<String>,
    pub content: Option<String>,
    pub tool_calls: Option<Vec<ChunkToolCall>>,
}

/// One streamed choice.
#[derive(Debug)]
pub struct ChunkChoice {
    pub index: u64,
    pub delta: ChunkDelta,
    pub finish_reason: Option<String>,
}

/// A streamed Chat Completions chunk.
#[derive(Debug)]
pub struct ChatCompletionChunk {
    pub id: String,
    pub created: u64,
    pub model: String,
    pub choices: Vec<ChunkChoice>,
    pub usage: Option<ChatCompletionUsage>,
}

/// An optional JSON value, by its view.
pub open spec fn opt_json(o: Option<JsonValue>) -> Option<JsonV> {
    match o {
        Some(v) => Some(v@),
        None => None,
    }
}

/// A copy of an optional JSON value.
pub fn dup_opt_json(o: &Option<JsonValue>) -> (r: Option<JsonValue>)
    ensures
        opt_json(r) == opt_json(*o),
{
    match o {
        Some(v) => Some(v.duplicate()),
        None => None,
    }
}

/// The mathematical form of a tool choice.
pub ghost enum ToolChoiceV {
    Mode(Seq<char>),
    /// A function choice: its type and the function's name.
    Function(Seq<char>, Seq<char>),
}

/// A tool choice, by its view.
pub open spec fn tool_choice_view(t: ToolChoice) -> ToolChoiceV {
    match t {
        ToolChoice::Mode(m) => ToolChoiceV::Mode(m@),
        ToolChoice::Function { kind, name } => ToolChoiceV::Function(kind@, name@),
    }
}

/// The mathematical form of a message content part.
pub ghost enum PartV {
    Text(Seq<char>),
    Image(Seq<char>, Option<Seq<char>>),
}

/// A content part, by its view.
pub open spec fn part_view(p: ContentPart) -> PartV {
    match p {
        ContentPart::Text { text } => PartV::Text(text@),
        ContentPart::ImageUrl { url, detail } => PartV::Image(url@, opt_view(detail)),
    }
}

/// The mathematical form of message content.
pub ghost enum ContentV {
    Text(Seq<char>),
    Parts(Seq<PartV>),
}

/// Message content, by its view.
pub open spec fn content_view(c: MessageContent) -> ContentV {
    match c {
        MessageContent::Text(t) => ContentV::Text(t@),
        MessageContent::Parts(ps) => ContentV::Parts(ps@.map_values(|p: ContentPart| part_view(p))),
    }
}

/// Optional message content, by its view.
pub open spec fn opt_content_view(c: Option<MessageContent>) -> Option<ContentV> {
    match c {
        Some(m) => Some(content_view(m)),
        None => None,
    }
}

/// A tool call being reassembled from provider stream chunks.
#[derive(Debug)]
pub struct ToolCallAccumulator {
    pub id: Option<String>,
    pub kind: Option<String>,
    pub name: Option<String>,
    pub arguments: String,
}

impl ToolCallAccumulator {
    /// An accumulator with nothing gathered yet.
    pub fn empty() -> (r: ToolCallAccumulator)
        ensures
            r.id is None,
            r.kind is None,
            r.name is None,
            r.arguments@ == Seq::<char>::empty(),
    {
        ToolCallAccumulator { id: None, kind: None, name: None, arguments: String::new() }
    }
}

/// The accumulators of a stream state, by (choice index, tool call index).
pub open spec fn accumulator_map(v: Seq<((u32, u64), ToolCallAccumulator)>) -> Map<(u32, u64), ToolCallAccumulator>
    decreases v.len(),
{
    if v.len() == 0 {
        Map::empty()
    } else {
        accumulator_map(v.drop_last()).insert(v.last().0, v.last().1)
    }
}

/// What a provider stream transform remembers between chunks.
#[derive(Debug)]
pub struct ChatStreamState {
    pub chunk_index: u64,
    pub tool_call_accumulators: Vec<((u32, u64), ToolCallAccumulator)>,
    pub response_id: Option<String>,
    pub response_model: Option<String>,
    pub response_created: Option<u64>,
    pub input_tokens: Option<u32>,
    pub output_tokens: Option<u32>,
    pub cache_creation_input_tokens: Option<u32>,
    pub cache_read_input_tokens: Option<u32>,
}

impl ChatStreamState {
    /// The state before the first chunk.
    pub fn new() -> (r: ChatStreamState)
        ensures
            r.chunk_index == 0,
            r.tool_call_accumulators@.len() == 0,
            r.response_id is None,
            r.response_model is None,
            r.response_created is None,
            r.input_tokens is None,
            r.output_tokens is None,
            r.cache_creation_input_tokens is None,
            r.cache_read_input_tokens is None,
    {
        ChatStreamState {
            chunk_index: 0,
            tool_call_accumulators: Vec::new(),
            response_id: None,
            response_model: None,
            response_created: None,
            input_tokens: None,
            output_tokens: None,
            cache_creation_input_tokens: None,
            cache_read_input_tokens: None,
        }
    }

    /// The accumulators by key.
    pub open spec fn accumulators(&self) -> Map<(u32, u64), ToolCallAccumulator> {
        accumulator_map(self.tool_call_accumulators@)
    }

    /// The position of the accumulator under `key`.
    fn find_accumulator(&self, key: (u32, u64)) -> (r: Option<usize>)
        ensures
            r matches Some(i) ==> i < self.tool_call_accumulators@.len() && self.tool_call_accumulators@[i as int].0 == key,
            r is None ==> forall|j: int| 0 <= j < self.tool_call_accumulators@.len() ==> self.tool_call_accumulators@[j].0 != key,
    {
        let mut i: usize = 0;
        while i < self.tool_call_accumulators.len()
            invariant
                0 <= i <= self.tool_call_accumulators@.len(),
                forall|j: int| 0 <= j < i ==> self.tool_call_accumulators@[j].0 != key,
            decreases self.tool_call_accumulators.len() - i,
        {
            let k = self.tool_call_accumulators[i].0;
            if k.0 == key.0 && k.1 == key.1 {
                return Some(i);
            }
            i += 1;
        }
        None
    }

    /// The accumulator under `key`.
    pub fn get_accumulator(&self, key: (u32, u64)) -> (r: Option<&ToolCallAccumulator>)
        requires
            self.keys_distinct(),
        ensures
            r matches Some(a) ==> self.accumulators().contains_key(key) && self.accumulators()[key] == *a,
            r is None ==> !self.accumulators().contains_key(key),
    {
        proof {
            lemma_accumulator_dom(self.tool_call_accumulators@);
        }
        match self.find_accumulator(key) {
            Some(i) => {
                proof {
                    lemma_accumulator_index(self.tool_call_accumulators@, i as int);
                }
                Some(&self.tool_call_accumulators[i].1)
            },
            None => None,
        }
    }

    /// Sets the accumulator under `key`.
    pub fn insert_accumulator(&mut self, key: (u32, u64), acc: ToolCallAccumulator)
        requires
            old(self).keys_distinct(),
        ensures
            final(self).keys_distinct(),
            final(self).accumulators() == old(self).accumulators().insert(key, acc),
            final(self).response_id == old(self).response_id,
            final(self).response_model == old(self).response_model,
            final(self).response_created == old(self).response_created,
            final(self).input_tokens == old(self).input_tokens,
            final(self).output_tokens == old(self).output_tokens,
            final(self).chunk_index == old(self).chunk_index,
            final(self).cache_creation_input_tokens == old(self).cache_creation_input_tokens,
            final(self).cache_read_input_tokens == old(self).cache_read_input_tokens,
    {
        let ghost before = self.tool_call_accumulators@;
        proof {
            lemma_accumulator_dom(before);
        }
        match self.find_accumulator(key) {
            Some(i) => {
                self.tool_call_accumulators.set(i, (key, acc));
                proof {
                    lemma_accumulator_update(before, i as int, (key, acc));
                }
            },
            None => {
                self.tool_call_accumulators.push((key, acc));
                proof {
                    assert(self.tool_call_accumulators@.drop_last() =~= before);
                }
            },
        }
    }

    /// The number of accumulators.
    pub fn accumulator_count(&self) -> (r: usize)
        requires
            self.keys_distinct(),
        ensures
            r == self.accumulators().len(),
    {
        proof {
            lemma_accumulator_len(self.tool_call_accumulators@);
        }
        self.tool_call_accumulators.len()
    }

    /// No two accumulators share a key.
    pub open spec fn keys_distinct(&self) -> bool {
        forall|i: int, j: int|
            0 <= i < self.tool_call_accumulators@.len() && 0 <= j < self.tool_call_accumulators@.len() && i != j
                ==> self.tool_call_accumulators@[i].0 != self.tool_call_accumulators@[j].0
    }
}

proof fn lemma_accumulator_dom(v: Seq<((u32, u64), ToolCallAccumulator)>)
    ensures
        forall|k: (u32, u64)| accumulator_map(v).contains_key(k) <==> exists|i: int| 0 <= i < v.len() && v[i].0 == k,
    decreases v.len(),
{
    if v.len() > 0 {
        lemma_accumulator_dom(v.drop_last());
        assert forall|k: (u32, u64)| accumulator_map(v).contains_key(k) <==> exists|i: int| 0 <= i < v.len() && v[i].0 == k by {
            if accumulator_map(v).contains_key(k) && k != v.last().0 {
                let t = v.drop_last();
                assert(accumulator_map(t).contains_key(k));
                assert(exists|i: int| 0 <= i < t.len() && t[i].0 == k);
                let i = choose|i: int| 0 <= i < t.len() && t[i].0 == k;
                assert(v[i] == t[i]);
            }
            if k == v.last().0 {
                assert(v[v.len() - 1].0 == k);
            }
            if exists|i: int| 0 <= i < v.len() && v[i].0 == k {
                let i = choose|i: int| 0 <= i < v.len() && v[i].0 == k;
                if i < v.len() - 1 {
                    let t = v.drop_last();
                    assert(t[i] == v[i]);
                    assert(exists|j: int| 0 <= j < t.len() && t[j].0 == k);
                    assert(accumulator_map(t).contains_key(k));
                }
            }
        }
    }
}

proof fn lemma_accumulator_index(v: Seq<((u32, u64), ToolCallAccumulator)>, i: int)
    requires
        0 <= i < v.len(),
        forall|a: int, b: int| 0 <= a < v.len() && 0 <= b < v.len() && a != b ==> v[a].0 != v[b].0,
    ensures
        accumulator_map(v).contains_key(v[i].0),
        accumulator_map(v)[v[i].0] == v[i].1,
    decreases v.len(),
{
    if i < v.len() - 1 {
        let t = v.drop_last();
        assert(t[i] == v[i]);
        assert forall|a: int, b: int| 0 <= a < t.len() && 0 <= b < t.len() && a != b implies t[a].0 != t[b].0 by {
            assert(t[a] == v[a] && t[b] == v[b]);
        }
        lemma_accumulator_index(t, i);
        assert(v[v.len() - 1].0 != v[i].0);
    }
}

proof fn lemma_accumulator_update(v: Seq<((u32, u64), ToolCallAccumulator)>, i: int, p: ((u32, u64), ToolCallAccumulator))
    requires
        0 <= i < v.len(),
        v[i].0 == p.0,
        forall|a: int, b: int| 0 <= a < v.len() && 0 <= b < v.len() && a != b ==> v[a].0 != v[b].0,
    ensures
        accumulator_map(v.update(i, p)) == accumulator_map(v).insert(p.0, p.1),
    decreases v.len(),
{
    let w = v.update(i, p);
    if i == v.len() - 1 {
        assert(w.drop_last() =~= v.drop_last());
        lemma_accumulator_dom(v.drop_last());
        assert(accumulator_map(w) =~= accumulator_map(v).insert(p.0, p.1));
    } else {
        let t = v.drop_last();
        assert forall|a: int, b: int| 0 <= a < t.len() && 0 <= b < t.len() && a != b implies t[a].0 != t[b].0 by {
            assert(t[a] == v[a] && t[b] == v[b]);
        }
        lemma_accumulator_update(t, i, p);
        assert(w.drop_last() =~= t.update(i, p));
        assert(v[v.len() - 1].0 != p.0);
        assert(accumulator_map(w) =~= accumulator_map(v).insert(p.0, p.1));
    }
}

proof fn lemma_accumulator_len(v: Seq<((u32, u64), ToolCallAccumulator)>)
    requires
        forall|a: int, b: int| 0 <= a < v.len() && 0 <= b < v.len() && a != b ==> v[a].0 != v[b].0,
    ensures
        accumulator_map(v).len() == v.len(),
        accumulator_map(v).dom().finite(),
    decreases v.len(),
{
    if v.len() > 0 {
        let t = v.drop_last();
        assert forall|a: int, b: int| 0 <= a < t.len() && 0 <= b < t.len() && a != b implies t[a].0 != t[b].0 by {
            assert(t[a] == v[a] && t[b] == v[b]);
        }
        lemma_accumulator_len(t);
        lemma_accumulator_dom(t);
        if accumulator_map(t).contains_key(v.last().0) {
            let i = choose|i: int| 0 <= i < t.len() && t[i].0 == v.last().0;
            assert(v[i].0 == v[v.len() - 1].0);
        }
    }
}

/// The gateway's usage record of a Chat Completions response, when it
/// reports usage: its three counts, the audio counts and the cached prompt
/// tokens of its details.
pub open spec fn chat_usage_record(u: ChatCompletionUsage) -> Usage {
    Usage {
        input_tokens: Some(u.prompt_tokens),
        output_tokens: Some(u.completion_tokens),
        total_tokens: Some(u.total_tokens),
        input_audio_tokens: match u.prompt_tokens_details {
            Some(d) => d.audio_tokens,
            None => None,
        },
        output_audio_tokens: match u.completion_tokens_details {
            Some(d) => d.audio_tokens,
            None => None,
        },
        cache_read_input_tokens: match u.prompt_tokens_details {
            Some(d) => d.cached_tokens,
            None => None,
        },
        cache_creation_input_tokens: None,
    }
}

/// The usage a Chat Completions response reports, as the gateway records it.
pub fn extract_chat_usage_from_response(response: &ChatCompletionResponse) -> (r: Option<Usage>)
    ensures
        r == (match response.usage {
            Some(u) => Some(chat_usage_record(u)),
            None => None,
        }),
{
    match response.usage {
        Some(u) => Some(Usage {
            input_tokens: Some(u.prompt_tokens),
            output_tokens: Some(u.completion_tokens),
            total_tokens: Some(u.total_tokens),
            input_audio_tokens: match u.prompt_tokens_details {
                Some(d) => d.audio_tokens,
                None => None,
            },
            output_audio_tokens: match u.completion_tokens_details {
                Some(d) => d.audio_tokens,
                None => None,
            },
            cache_read_input_tokens: match u.prompt_tokens_details {
                Some(d) => d.cached_tokens,
                None => None,
            },
            cache_creation_input_tokens: None,
        }),
        None => None,
    }
}

/// State carried across the chunks of a native Anthropic Messages stream.
#[derive(Debug)]
pub struct AnthropicMessagesNativeStreamState {
    pub usage: Usage,
}

/// State carried across the events of a native OpenAI Responses stream.
#[derive(Debug)]
pub struct OpenAIResponsesNativeStreamState {
    pub usage: Usage,
}

impl AnthropicMessagesNativeStreamState {
    /// A stream with no usage seen yet.
    pub fn new() -> (r: Self)
        ensures
            r.usage == Usage::empty_spec(),
    {
        AnthropicMessagesNativeStreamState { usage: Usage::empty() }
    }
}

impl OpenAIResponsesNativeStreamState {
    /// A stream with no usage seen yet.
    pub fn new() -> (r: Self)
        ensures
            r.usage == Usage::empty_spec(),
    {
        OpenAIResponsesNativeStreamState { usage: Usage::empty() }
    }
}

/// Folding in a report that carries no count changes nothing.
pub proof fn law_merge_empty_report(u: Usage)
    ensures
        merged_usage(u, Usage::empty_spec()) == u,
{
}

/// Folding in the same report twice is folding it in once.
pub proof fn law_merge_idempotent(u: Usage, reported: Usage)
    ensures
        merged_usage(merged_usage(u, reported), reported) == merged_usage(u, reported),
{
}

/// A report that carries every count wins over whatever was there.
pub proof fn law_merge_full_report_wins(u: Usage, v: Usage, reported: Usage)
    requires
        reported.input_tokens is Some,
        reported.output_tokens is Some,
        reported.total_tokens is Some,
        reported.input_audio_tokens is Some,
        reported.output_audio_tokens is Some,
        reported.cache_read_input_tokens is Some,
        reported.cache_creation_input_tokens is Some,
    ensures
        merged_usage(u, reported) == merged_usage(v, reported),
{
}

} // verus!
