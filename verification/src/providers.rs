//! The provider definitions: what each OpenAI-compatible upstream is called,
//! where it lives, how it authenticates and what it changes in a request.
use vstd::prelude::*;

use crate::auth::{GatewayError, ProviderAuth};
use crate::json::{
    field_lookup, fields_view, json_u64, json_view, keys_unique, obj_contains, obj_get, obj_insert, obj_remove, obj_map, JsonV, JsonValue};
use crate::provider::{
    api_key_header, apply_renames, applies_quirks, streams_true, usage_options, without_keys, bearer_auth_headers, body_wf, endpoint_url, field_defaulted, field_removed,
    insert_field_if_absent, key_header_outcome, name_based_conventions, no_quirks, quirks_applied, remove_field,
    stream_data_payload, stream_payload_spec, strings_view, endpoint_url_spec, value_wf, CompatQuirks,
    ProviderSemanticConventions, QuirksV, StreamReaderKind,
};
use crate::text::{
    concat, decimal, decimal_spec, encode_path_segment, encoded_segment, opt_view, str_eq, to_owned_string,
};

verus! {

/// What a provider declares about itself: its name, its default location,
/// its chat route and its authentication.
pub trait ProviderMeta {
    /// The name the provider is registered under.
    spec fn provider_name(&self) -> Seq<char>;

    /// The chat endpoint path for a model.
    spec fn chat_path(&self, model: Seq<char>) -> Seq<char>;

    fn name(&self) -> (r: &'static str)
        ensures
            r@ == self.provider_name(),
    ;

    /// The base URL the provider serves from unless configured otherwise.
    spec fn base_url_spec(&self) -> Seq<char>;

    /// Whether `r` is what building the provider's authentication headers
    /// from `auth` gives.
    spec fn auth_outcome(&self, auth: ProviderAuth, r: Result<Vec<(String, String)>, GatewayError>) -> bool;

    fn default_base_url(&self) -> (r: &'static str)
        ensures
            r@ == self.base_url_spec(),
    ;

    /// The OpenTelemetry and OpenInference names; by default the provider's
    /// name serves for both.
    fn semantic_conventions(&self) -> (r: ProviderSemanticConventions)
        default_ensures
            r.gen_ai_provider_name@ == self.provider_name(),
            r.llm_system@ == self.provider_name(),
            r.llm_provider is None,
    {
        name_based_conventions(self.name())
    }

    fn chat_endpoint_path(&self, model: &str) -> (r: String)
        ensures
            r@ == self.chat_path(model@),
    ;

    /// How the provider frames its stream; SSE unless it says otherwise.
    open spec fn reader_kind(&self) -> StreamReaderKind {
        StreamReaderKind::Sse
    }

    fn stream_reader_kind(&self) -> (r: StreamReaderKind)
        ensures
            r == self.reader_kind(),
    ;

    fn build_auth_headers(&self, auth: &ProviderAuth) -> (r: Result<Vec<(String, String)>, GatewayError>)
        ensures
            self.auth_outcome(*auth, r),
    ;

    /// The request URL for an arbitrary endpoint under a base URL.
    fn build_url_for_endpoint(&self, base_url: &str, endpoint_path: &str) -> (r: String)
        ensures
            r@ == endpoint_url_spec(base_url@, endpoint_path@),
    {
        endpoint_url(base_url, endpoint_path)
    }

    /// The request URL of the chat endpoint for a model.
    fn build_url(&self, base_url: &str, model: &str) -> (r: String)
        ensures
            r@ == endpoint_url_spec(base_url@, self.chat_path(model@)),
    {
        let path = self.chat_endpoint_path(model);
        self.build_url_for_endpoint(base_url, path.as_str())
    }
}

/// The path every provider uses for chat unless it says otherwise.
pub open spec fn default_chat_path() -> Seq<char> {
    "/v1/chat/completions"@
}

/// Chat Completions requests as the provider wants them.
pub trait ChatTransform: ProviderMeta {
    /// The provider's quirks.
    spec fn quirks_view(&self) -> QuirksV;

    /// Whether `after` is the request body `before` made ready for the
    /// provider.
    spec fn transforms_body(&self, before: JsonV, after: JsonV) -> bool;

    fn default_quirks(&self) -> (r: CompatQuirks)
        ensures
            r@ == self.quirks_view(),
    ;

    /// Makes a serialized Chat Completions request ready for the provider.
    fn transform_request_body(&self, body: &mut JsonValue)
        requires
            body_wf(old(body)@),
        ensures
            self.transforms_body(old(body)@, final(body)@),
    ;

    /// The JSON payload of one line of the provider's chat stream, if the
    /// line carries a chunk.
    fn stream_chunk_payload(&self, raw: &str) -> (r: Option<String>)
        ensures
            opt_view(r) == stream_payload_spec(raw@, self.quirks_view().stream_done_signal),
    {
        let quirks = self.default_quirks();
        stream_data_payload(raw, quirks.stream_done_signal.as_str())
    }
}

/// Embeddings requests as the provider wants them.
pub trait EmbedTransform {
    /// The embeddings endpoint path for a model.
    spec fn embeddings_path(&self, model: Seq<char>) -> Seq<char>;

    /// Whether `after` and the outcome `r` are what making the embeddings
    /// request body `before` ready for the provider gives.
    spec fn embeddings_transformed(&self, before: JsonV, after: JsonV, r: Result<(), GatewayError>) -> bool;

    fn embeddings_endpoint_path(&self, model: &str) -> (r: String)
        ensures
            r@ == self.embeddings_path(model@),
    ;

    /// Makes a serialized embeddings request ready for the provider, or
    /// refuses it.
    fn transform_embeddings_body(&self, body: &mut JsonValue) -> (r: Result<(), GatewayError>)
        requires
            body_wf(old(body)@),
        ensures
            self.embeddings_transformed(old(body)@, final(body)@, r),
    ;
}

/// The optional capabilities of a provider.
pub trait ProviderCapabilities: ChatTransform {
    /// Whether the provider offers embeddings.
    spec fn embeds(&self) -> bool;

    /// The provider as an embeddings transform, where it offers one.
    fn as_embed_transform(&self) -> (r: Option<&Self>)
        ensures
            r is Some <==> self.embeds(),
            r matches Some(p) ==> p == self,
    ;
}

/// Text-to-speech support; no provider offers it yet.
pub trait TtsTransform {
}

/// Speech-to-text support; no provider offers it yet.
pub trait SttTransform {
}

/// Image generation support; no provider offers it yet.
pub trait ImageGenTransform {
}

/// The path every provider uses for embeddings unless it says otherwise.
pub open spec fn default_embeddings_path() -> Seq<char> {
    "/v1/embeddings"@
}

/// `after` is the object `before` without the fields `keys`; anything else
/// is left alone.
pub open spec fn keys_removed(before: JsonV, after: JsonV, keys: Seq<Seq<char>>) -> bool {
    quirks_applied(keys, Seq::empty(), false, before, after)
}

/// The OpenAI embeddings fields that some providers do not document.
pub open spec fn openai_only_embedding_fields() -> Seq<Seq<char>> {
    seq!["encoding_format"@, "user"@]
}

/// Removes the embeddings fields a provider does not document.
fn remove_openai_only_embedding_fields(body: &mut JsonValue)
    requires
        body_wf(old(body)@),
    ensures
        keys_removed(old(body)@, final(body)@, openai_only_embedding_fields()),
        body_wf(final(body)@),
{
    let ghost before = body@;
    remove_field(body, "encoding_format");
    let ghost mid = body@;
    remove_field(body, "user");
    proof {
        let keys = openai_only_embedding_fields();
        assert(keys.drop_last() =~= seq!["encoding_format"@]);
        assert(keys.drop_last().drop_last() =~= Seq::<Seq<char>>::empty());
        if before is Object {
            let m = obj_map(before->Object_0);
            let one = seq!["encoding_format"@];
            assert(one.drop_last() =~= Seq::<Seq<char>>::empty());
            assert(without_keys(m, Seq::empty()) == m);
            assert(without_keys(m, one) == m.remove("encoding_format"@));
            assert(without_keys(m, keys) == m.remove("encoding_format"@).remove("user"@));
            assert(apply_renames(without_keys(m, keys), Seq::empty()) == without_keys(m, keys));
        }
    }
}

/// The quirks of a provider that needs none.
fn plain_quirks() -> (r: CompatQuirks)
    ensures
        r@ == no_quirks(),
{
    CompatQuirks::none()
}

/// A provider of the OpenAI API with bearer authentication and no
/// changes to requests.
#[derive(Debug)]
pub struct Mistral;

/// OpenRouter.
#[derive(Debug)]
pub struct OpenRouter;

/// StepFun.
#[derive(Debug)]
pub struct StepFun;

/// ModelScope's global API-Inference service.
#[derive(Debug)]
pub struct ModelScope;

/// ModelScope's CN API-Inference service.
#[derive(Debug)]
pub struct ModelScopeCn;

/// xAI.
#[derive(Debug)]
pub struct Xai;

/// Google Gemini through its OpenAI-compatible endpoint.
#[derive(Debug)]
pub struct GoogleDef;

/// ZhipuAI, whose base URL already ends in `/api/paas/v4`.
#[derive(Debug)]
pub struct ZhipuAi;

/// Fireworks AI.
#[derive(Debug)]
pub struct FireworksAi;

/// Azure OpenAI deployments.
#[derive(Debug)]
pub struct AzureDef;

/// Groq.
#[derive(Debug)]
pub struct Groq;

/// The settings of a provider reached with an API key at an optional
/// base URL.
#[derive(Debug)]
pub struct MistralProviderConfig {
    pub api_key: String,
    pub api_base: Option<String>,
}

/// The settings of an OpenRouter deployment.
#[derive(Debug)]
pub struct OpenRouterProviderConfig {
    pub api_key: String,
    pub api_base: Option<String>,
}

/// The settings of a StepFun deployment.
#[derive(Debug)]
pub struct StepFunProviderConfig {
    pub api_key: String,
    pub api_base: Option<String>,
}

/// The settings of a ModelScope deployment.
#[derive(Debug)]
pub struct ModelScopeProviderConfig {
    pub api_key: String,
    pub api_base: Option<String>,
}

/// The settings of a ModelScope CN deployment.
#[derive(Debug)]
pub struct ModelScopeCnProviderConfig {
    pub api_key: String,
    pub api_base: Option<String>,
}

/// The settings of an xAI deployment.
#[derive(Debug)]
pub struct XaiProviderConfig {
    pub api_key: String,
    pub api_base: Option<String>,
}

/// The settings of a Gemini deployment.
#[derive(Debug)]
pub struct GeminiProviderConfig {
    pub api_key: String,
    pub api_base: Option<String>,
}

/// The settings of a ZhipuAI deployment.
#[derive(Debug)]
pub struct ZhipuAiProviderConfig {
    pub api_key: String,
    pub api_base: Option<String>,
}

/// The settings of a Fireworks AI deployment.
#[derive(Debug)]
pub struct FireworksAiProviderConfig {
    pub api_key: String,
    pub api_base: Option<String>,
}

/// The settings of a Groq deployment.
#[derive(Debug)]
pub struct GroqProviderConfig {
    pub api_key: String,
    pub api_base: Option<String>,
}

/// The settings of an Azure OpenAI deployment: its key, its resource and
/// optionally the REST API version to use.
#[derive(Debug)]
pub struct AzureProviderConfig {
    pub api_key: String,
    pub api_base: String,
    pub api_version: Option<String>,
}

/// The Azure OpenAI REST API version used unless a deployment sets one.
pub const DEFAULT_API_VERSION: &'static str = "v1";

impl ProviderMeta for Mistral {
    open spec fn base_url_spec(&self) -> Seq<char> {
        "https://api.mistral.ai"@
    }

    open spec fn auth_outcome(&self, auth: ProviderAuth, r: Result<Vec<(String, String)>, GatewayError>) -> bool {
        key_header_outcome(r, auth, self.provider_name(), "authorization"@, "Bearer "@)
    }

    open spec fn provider_name(&self) -> Seq<char> {
        "mistral"@
    }

    open spec fn chat_path(&self, model: Seq<char>) -> Seq<char> {
        default_chat_path()
    }

    fn name(&self) -> (r: &'static str) {
        "mistral"
    }

    fn default_base_url(&self) -> (r: &'static str)
        ensures
            r@ == "https://api.mistral.ai"@,
    {
        "https://api.mistral.ai"
    }

    fn chat_endpoint_path(&self, model: &str) -> (r: String) {
        to_owned_string("/v1/chat/completions")
    }

    fn build_auth_headers(&self, auth: &ProviderAuth) -> (r: Result<Vec<(String, String)>, GatewayError>)
        ensures
            key_header_outcome(r, *auth, self.provider_name(), "authorization"@, "Bearer "@),
    {
        bearer_auth_headers(self.name(), auth)
    }

    fn stream_reader_kind(&self) -> (r: StreamReaderKind) {
        StreamReaderKind::Sse
    }
}

impl ChatTransform for Mistral {
    open spec fn quirks_view(&self) -> QuirksV {
        QuirksV { tool_args_may_be_object: true, ..no_quirks() }
    }

    open spec fn transforms_body(&self, before: JsonV, after: JsonV) -> bool {
        applies_quirks(self.quirks_view(), before, after)
    }

    fn default_quirks(&self) -> (r: CompatQuirks) {
        let mut q = CompatQuirks::none();
        q.tool_args_may_be_object = true;
        q
    }

    fn transform_request_body(&self, body: &mut JsonValue) {
        let q = self.default_quirks();
        q.apply_to_request(body);
    }
}

impl ProviderMeta for OpenRouter {
    open spec fn base_url_spec(&self) -> Seq<char> {
        "https://openrouter.ai/api/v1"@
    }

    open spec fn auth_outcome(&self, auth: ProviderAuth, r: Result<Vec<(String, String)>, GatewayError>) -> bool {
        key_header_outcome(r, auth, self.provider_name(), "authorization"@, "Bearer "@)
    }

    open spec fn provider_name(&self) -> Seq<char> {
        "openrouter"@
    }

    open spec fn chat_path(&self, model: Seq<char>) -> Seq<char> {
        "/chat/completions"@
    }

    fn name(&self) -> (r: &'static str) {
        "openrouter"
    }

    fn default_base_url(&self) -> (r: &'static str)
        ensures
            r@ == "https://openrouter.ai/api/v1"@,
    {
        "https://openrouter.ai/api/v1"
    }

    fn chat_endpoint_path(&self, model: &str) -> (r: String) {
        to_owned_string("/chat/completions")
    }

    fn build_auth_headers(&self, auth: &ProviderAuth) -> (r: Result<Vec<(String, String)>, GatewayError>)
        ensures
            key_header_outcome(r, *auth, self.provider_name(), "authorization"@, "Bearer "@),
    {
        bearer_auth_headers(self.name(), auth)
    }

    fn stream_reader_kind(&self) -> (r: StreamReaderKind) {
        StreamReaderKind::Sse
    }
}

impl ChatTransform for OpenRouter {
    open spec fn quirks_view(&self) -> QuirksV {
        no_quirks()
    }

    open spec fn transforms_body(&self, before: JsonV, after: JsonV) -> bool {
        applies_quirks(self.quirks_view(), before, after)
    }

    fn default_quirks(&self) -> (r: CompatQuirks) {
        plain_quirks()
    }

    fn transform_request_body(&self, body: &mut JsonValue) {
        let q = self.default_quirks();
        q.apply_to_request(body);
    }
}

impl ProviderMeta for StepFun {
    open spec fn base_url_spec(&self) -> Seq<char> {
        "https://api.stepfun.com/v1"@
    }

    open spec fn auth_outcome(&self, auth: ProviderAuth, r: Result<Vec<(String, String)>, GatewayError>) -> bool {
        key_header_outcome(r, auth, self.provider_name(), "authorization"@, "Bearer "@)
    }

    open spec fn provider_name(&self) -> Seq<char> {
        "stepfun"@
    }

    open spec fn chat_path(&self, model: Seq<char>) -> Seq<char> {
        default_chat_path()
    }

    fn name(&self) -> (r: &'static str) {
        "stepfun"
    }

    fn default_base_url(&self) -> (r: &'static str)
        ensures
            r@ == "https://api.stepfun.com/v1"@,
    {
        "https://api.stepfun.com/v1"
    }

    fn chat_endpoint_path(&self, model: &str) -> (r: String) {
        to_owned_string("/v1/chat/completions")
    }

    fn build_auth_headers(&self, auth: &ProviderAuth) -> (r: Result<Vec<(String, String)>, GatewayError>)
        ensures
            key_header_outcome(r, *auth, self.provider_name(), "authorization"@, "Bearer "@),
    {
        bearer_auth_headers(self.name(), auth)
    }

    fn stream_reader_kind(&self) -> (r: StreamReaderKind) {
        StreamReaderKind::Sse
    }
}

impl ChatTransform for StepFun {
    open spec fn quirks_view(&self) -> QuirksV {
        no_quirks()
    }

    open spec fn transforms_body(&self, before: JsonV, after: JsonV) -> bool {
        applies_quirks(self.quirks_view(), before, after)
    }

    fn default_quirks(&self) -> (r: CompatQuirks) {
        plain_quirks()
    }

    fn transform_request_body(&self, body: &mut JsonValue) {
        let q = self.default_quirks();
        q.apply_to_request(body);
    }
}

impl ProviderMeta for ModelScope {
    open spec fn base_url_spec(&self) -> Seq<char> {
        "https://api-inference.modelscope.ai/v1"@
    }

    open spec fn auth_outcome(&self, auth: ProviderAuth, r: Result<Vec<(String, String)>, GatewayError>) -> bool {
        key_header_outcome(r, auth, self.provider_name(), "authorization"@, "Bearer "@)
    }

    open spec fn provider_name(&self) -> Seq<char> {
        "modelscope"@
    }

    open spec fn chat_path(&self, model: Seq<char>) -> Seq<char> {
        default_chat_path()
    }

    fn name(&self) -> (r: &'static str) {
        "modelscope"
    }

    fn default_base_url(&self) -> (r: &'static str)
        ensures
            r@ == "https://api-inference.modelscope.ai/v1"@,
    {
        "https://api-inference.modelscope.ai/v1"
    }

    fn chat_endpoint_path(&self, model: &str) -> (r: String) {
        to_owned_string("/v1/chat/completions")
    }

    fn build_auth_headers(&self, auth: &ProviderAuth) -> (r: Result<Vec<(String, String)>, GatewayError>)
        ensures
            key_header_outcome(r, *auth, self.provider_name(), "authorization"@, "Bearer "@),
    {
        bearer_auth_headers(self.name(), auth)
    }

    fn stream_reader_kind(&self) -> (r: StreamReaderKind) {
        StreamReaderKind::Sse
    }
}

impl ChatTransform for ModelScope {
    open spec fn quirks_view(&self) -> QuirksV {
        no_quirks()
    }

    open spec fn transforms_body(&self, before: JsonV, after: JsonV) -> bool {
        applies_quirks(self.quirks_view(), before, after)
    }

    fn default_quirks(&self) -> (r: CompatQuirks) {
        plain_quirks()
    }

    fn transform_request_body(&self, body: &mut JsonValue) {
        let q = self.default_quirks();
        q.apply_to_request(body);
    }
}

impl ProviderMeta for ModelScopeCn {
    open spec fn base_url_spec(&self) -> Seq<char> {
        "https://api-inference.modelscope.cn/v1"@
    }

    open spec fn auth_outcome(&self, auth: ProviderAuth, r: Result<Vec<(String, String)>, GatewayError>) -> bool {
        key_header_outcome(r, auth, self.provider_name(), "authorization"@, "Bearer "@)
    }

    open spec fn provider_name(&self) -> Seq<char> {
        "modelscope-cn"@
    }

    open spec fn chat_path(&self, model: Seq<char>) -> Seq<char> {
        default_chat_path()
    }

    fn name(&self) -> (r: &'static str) {
        "modelscope-cn"
    }

    fn default_base_url(&self) -> (r: &'static str)
        ensures
            r@ == "https://api-inference.modelscope.cn/v1"@,
    {
        "https://api-inference.modelscope.cn/v1"
    }

    fn chat_endpoint_path(&self, model: &str) -> (r: String) {
        to_owned_string("/v1/chat/completions")
    }

    fn build_auth_headers(&self, auth: &ProviderAuth) -> (r: Result<Vec<(String, String)>, GatewayError>)
        ensures
            key_header_outcome(r, *auth, self.provider_name(), "authorization"@, "Bearer "@),
    {
        bearer_auth_headers(self.name(), auth)
    }

    fn stream_reader_kind(&self) -> (r: StreamReaderKind) {
        StreamReaderKind::Sse
    }
}

impl ChatTransform for ModelScopeCn {
    open spec fn quirks_view(&self) -> QuirksV {
        no_quirks()
    }

    open spec fn transforms_body(&self, before: JsonV, after: JsonV) -> bool {
        applies_quirks(self.quirks_view(), before, after)
    }

    fn default_quirks(&self) -> (r: CompatQuirks) {
        plain_quirks()
    }

    fn transform_request_body(&self, body: &mut JsonValue) {
        let q = self.default_quirks();
        q.apply_to_request(body);
    }
}

impl ProviderMeta for Xai {
    open spec fn base_url_spec(&self) -> Seq<char> {
        "https://api.x.ai/v1"@
    }

    open spec fn auth_outcome(&self, auth: ProviderAuth, r: Result<Vec<(String, String)>, GatewayError>) -> bool {
        key_header_outcome(r, auth, self.provider_name(), "authorization"@, "Bearer "@)
    }

    open spec fn provider_name(&self) -> Seq<char> {
        "xai"@
    }

    open spec fn chat_path(&self, model: Seq<char>) -> Seq<char> {
        default_chat_path()
    }

    fn name(&self) -> (r: &'static str) {
        "xai"
    }

    fn default_base_url(&self) -> (r: &'static str)
        ensures
            r@ == "https://api.x.ai/v1"@,
    {
        "https://api.x.ai/v1"
    }

    fn chat_endpoint_path(&self, model: &str) -> (r: String) {
        to_owned_string("/v1/chat/completions")
    }

    fn build_auth_headers(&self, auth: &ProviderAuth) -> (r: Result<Vec<(String, String)>, GatewayError>)
        ensures
            key_header_outcome(r, *auth, self.provider_name(), "authorization"@, "Bearer "@),
    {
        bearer_auth_headers(self.name(), auth)
    }

    fn stream_reader_kind(&self) -> (r: StreamReaderKind) {
        StreamReaderKind::Sse
    }
}

impl ChatTransform for Xai {
    open spec fn quirks_view(&self) -> QuirksV {
        QuirksV { unsupported_params: seq!["logit_bias"@], inject_stream_usage: true, ..no_quirks() }
    }

    open spec fn transforms_body(&self, before: JsonV, after: JsonV) -> bool {
        applies_quirks(self.quirks_view(), before, after)
    }

    fn default_quirks(&self) -> (r: CompatQuirks) {
        let mut q = CompatQuirks::none();
        q.unsupported_params = vec![to_owned_string("logit_bias")];
        q.inject_stream_usage = true;
        proof {
            assert(strings_view(q.unsupported_params@) =~= seq!["logit_bias"@]);
        }
        q
    }

    fn transform_request_body(&self, body: &mut JsonValue) {
        let q = self.default_quirks();
        q.apply_to_request(body);
    }
}

impl ProviderMeta for GoogleDef {
    open spec fn base_url_spec(&self) -> Seq<char> {
        "https://generativelanguage.googleapis.com/v1beta/openai"@
    }

    open spec fn auth_outcome(&self, auth: ProviderAuth, r: Result<Vec<(String, String)>, GatewayError>) -> bool {
        key_header_outcome(r, auth, self.provider_name(), "x-goog-api-key"@, ""@)
    }

    open spec fn provider_name(&self) -> Seq<char> {
        "gemini"@
    }

    open spec fn chat_path(&self, model: Seq<char>) -> Seq<char> {
        "/chat/completions"@
    }

    fn name(&self) -> (r: &'static str) {
        "gemini"
    }

    fn default_base_url(&self) -> (r: &'static str)
        ensures
            r@ == "https://generativelanguage.googleapis.com/v1beta/openai"@,
    {
        "https://generativelanguage.googleapis.com/v1beta/openai"
    }

    fn semantic_conventions(&self) -> (r: ProviderSemanticConventions)
        ensures
            r.gen_ai_provider_name@ == "gcp.gemini"@,
            r.llm_system@ == "gemini"@,
            r.llm_provider matches Some(p) && p@ == "google"@,
    {
        ProviderSemanticConventions {
            gen_ai_provider_name: "gcp.gemini",
            llm_system: "gemini",
            llm_provider: Some("google"),
        }
    }

    fn chat_endpoint_path(&self, model: &str) -> (r: String) {
        to_owned_string("/chat/completions")
    }

    fn build_auth_headers(&self, auth: &ProviderAuth) -> (r: Result<Vec<(String, String)>, GatewayError>)
        ensures
            key_header_outcome(r, *auth, self.provider_name(), "x-goog-api-key"@, ""@),
    {
        api_key_header(self.name(), auth, "x-goog-api-key", "")
    }

    fn stream_reader_kind(&self) -> (r: StreamReaderKind) {
        StreamReaderKind::Sse
    }
}

impl ChatTransform for GoogleDef {
    open spec fn quirks_view(&self) -> QuirksV {
        no_quirks()
    }

    open spec fn transforms_body(&self, before: JsonV, after: JsonV) -> bool {
        applies_quirks(self.quirks_view(), before, after)
    }

    fn default_quirks(&self) -> (r: CompatQuirks) {
        plain_quirks()
    }

    fn transform_request_body(&self, body: &mut JsonValue) {
        let q = self.default_quirks();
        q.apply_to_request(body);
    }
}

impl EmbedTransform for GoogleDef {
    open spec fn embeddings_path(&self, model: Seq<char>) -> Seq<char> {
        "/embeddings"@
    }

    open spec fn embeddings_transformed(&self, before: JsonV, after: JsonV, r: Result<(), GatewayError>) -> bool {
        r is Ok && after == before
    }

    fn embeddings_endpoint_path(&self, model: &str) -> (r: String) {
        to_owned_string("/embeddings")
    }

    fn transform_embeddings_body(&self, body: &mut JsonValue) -> (r: Result<(), GatewayError>) {
        Ok(())
    }
}

impl ProviderMeta for FireworksAi {
    open spec fn base_url_spec(&self) -> Seq<char> {
        "https://api.fireworks.ai/inference/v1"@
    }

    open spec fn auth_outcome(&self, auth: ProviderAuth, r: Result<Vec<(String, String)>, GatewayError>) -> bool {
        key_header_outcome(r, auth, self.provider_name(), "authorization"@, "Bearer "@)
    }

    open spec fn provider_name(&self) -> Seq<char> {
        "fireworks-ai"@
    }

    open spec fn chat_path(&self, model: Seq<char>) -> Seq<char> {
        default_chat_path()
    }

    fn name(&self) -> (r: &'static str) {
        "fireworks-ai"
    }

    fn default_base_url(&self) -> (r: &'static str)
        ensures
            r@ == "https://api.fireworks.ai/inference/v1"@,
    {
        "https://api.fireworks.ai/inference/v1"
    }

    fn chat_endpoint_path(&self, model: &str) -> (r: String) {
        to_owned_string("/v1/chat/completions")
    }

    fn build_auth_headers(&self, auth: &ProviderAuth) -> (r: Result<Vec<(String, String)>, GatewayError>)
        ensures
            key_header_outcome(r, *auth, self.provider_name(), "authorization"@, "Bearer "@),
    {
        bearer_auth_headers(self.name(), auth)
    }

    fn stream_reader_kind(&self) -> (r: StreamReaderKind) {
        StreamReaderKind::Sse
    }
}

impl ChatTransform for FireworksAi {
    open spec fn quirks_view(&self) -> QuirksV {
        no_quirks()
    }

    /// Fireworks truncates on context overflow unless told otherwise, so
    /// requests ask for the OpenAI behavior of an error.
    open spec fn transforms_body(&self, before: JsonV, after: JsonV) -> bool {
        field_defaulted(before, after, "context_length_exceeded_behavior"@, JsonV::Str("error"@))
    }

    fn default_quirks(&self) -> (r: CompatQuirks) {
        plain_quirks()
    }

    fn transform_request_body(&self, body: &mut JsonValue) {
        insert_field_if_absent(body, "context_length_exceeded_behavior", JsonValue::string("error"));
    }
}

impl EmbedTransform for FireworksAi {
    open spec fn embeddings_path(&self, model: Seq<char>) -> Seq<char> {
        default_embeddings_path()
    }

    open spec fn embeddings_transformed(&self, before: JsonV, after: JsonV, r: Result<(), GatewayError>) -> bool {
        r is Ok && keys_removed(before, after, openai_only_embedding_fields())
    }

    fn embeddings_endpoint_path(&self, model: &str) -> (r: String) {
        to_owned_string("/v1/embeddings")
    }

    fn transform_embeddings_body(&self, body: &mut JsonValue) -> (r: Result<(), GatewayError>) {
        remove_openai_only_embedding_fields(body);
        Ok(())
    }
}

impl ProviderMeta for ZhipuAi {
    open spec fn base_url_spec(&self) -> Seq<char> {
        "https://open.bigmodel.cn/api/paas/v4"@
    }

    open spec fn auth_outcome(&self, auth: ProviderAuth, r: Result<Vec<(String, String)>, GatewayError>) -> bool {
        key_header_outcome(r, auth, self.provider_name(), "authorization"@, "Bearer "@)
    }

    open spec fn provider_name(&self) -> Seq<char> {
        "zhipuai"@
    }

    open spec fn chat_path(&self, model: Seq<char>) -> Seq<char> {
        "/chat/completions"@
    }

    fn name(&self) -> (r: &'static str) {
        "zhipuai"
    }

    fn default_base_url(&self) -> (r: &'static str)
        ensures
            r@ == "https://open.bigmodel.cn/api/paas/v4"@,
    {
        "https://open.bigmodel.cn/api/paas/v4"
    }

    fn chat_endpoint_path(&self, model: &str) -> (r: String) {
        to_owned_string("/chat/completions")
    }

    fn build_auth_headers(&self, auth: &ProviderAuth) -> (r: Result<Vec<(String, String)>, GatewayError>)
        ensures
            key_header_outcome(r, *auth, self.provider_name(), "authorization"@, "Bearer "@),
    {
        bearer_auth_headers(self.name(), auth)
    }

    fn stream_reader_kind(&self) -> (r: StreamReaderKind) {
        StreamReaderKind::Sse
    }
}

impl ChatTransform for ZhipuAi {
    open spec fn quirks_view(&self) -> QuirksV {
        no_quirks()
    }

    /// The body goes as it is; the range of its temperature, a float, is
    /// checked where the request is serialized.
    open spec fn transforms_body(&self, before: JsonV, after: JsonV) -> bool {
        after == before
    }

    fn default_quirks(&self) -> (r: CompatQuirks) {
        plain_quirks()
    }

    fn transform_request_body(&self, body: &mut JsonValue) {
    }
}

/// The dimensions ZhipuAI's `embedding-3` model supports.
pub open spec fn embedding3_dimension(n: u64) -> bool {
    n == 256 || n == 512 || n == 1024 || n == 2048
}

/// Why ZhipuAI refuses an embeddings request for its dimensions, if it
/// does: `embedding-3` takes 256, 512, 1024 or 2048, `embedding-2` only 1024.
/// Requests without a string model or an integer dimension pass.
pub open spec fn zhipu_dimension_error(body: JsonV) -> Option<Seq<char>> {
    match body {
        JsonV::Object(fs) => match field_lookup(fs, "model"@) {
            Some(JsonV::Str(model)) => match field_lookup(fs, "dimensions"@) {
                Some(d) => match json_u64(d) {
                    Some(n) => if model == "embedding-3"@ && !embedding3_dimension(n) {
                        Some(
                            "zhipuai embedding-3 only supports dimensions 256, 512, 1024, or 2048, got "@
                                + decimal_spec(n as nat),
                        )
                    } else if model == "embedding-2"@ && n != 1024 {
                        Some("zhipuai embedding-2 uses fixed dimension 1024, got "@ + decimal_spec(n as nat))
                    } else {
                        None
                    },
                    None => None,
                },
                None => None,
            },
            _ => None,
        },
        _ => None,
    }
}

/// Checks the dimensions of a ZhipuAI embeddings request.
fn validate_dimensions(body: &JsonValue) -> (r: Result<(), GatewayError>)
    ensures
        match zhipu_dimension_error(body@) {
            Some(msg) => r matches Err(GatewayError::Validation(m)) && m@ == msg,
            None => r is Ok,
        },
{
    let fields = match body {
        JsonValue::Object(fields) => fields,
        _ => {
            return Ok(());
        },
    };
    proof {
        assert(fields_view(fields@) =~= body@->Object_0);
    }
    let model = match obj_get(fields, "model") {
        Some(v) => match v.as_str() {
            Some(m) => m,
            None => {
                return Ok(());
            },
        },
        None => {
            return Ok(());
        },
    };
    let dimensions = match obj_get(fields, "dimensions") {
        Some(v) => match v.as_u64() {
            Some(n) => n,
            None => {
                return Ok(());
            },
        },
        None => {
            return Ok(());
        },
    };
    if str_eq(model, "embedding-3") && !(dimensions == 256 || dimensions == 512 || dimensions == 1024
        || dimensions == 2048) {
        let text = decimal(dimensions);
        return Err(
            GatewayError::Validation(
                concat(
                    "zhipuai embedding-3 only supports dimensions 256, 512, 1024, or 2048, got ",
                    text.as_str(),
                ),
            ),
        );
    }
    if str_eq(model, "embedding-2") && dimensions != 1024 {
        let text = decimal(dimensions);
        return Err(
            GatewayError::Validation(concat("zhipuai embedding-2 uses fixed dimension 1024, got ", text.as_str())),
        );
    }
    Ok(())
}

impl EmbedTransform for ZhipuAi {
    open spec fn embeddings_path(&self, model: Seq<char>) -> Seq<char> {
        "/embeddings"@
    }

    open spec fn embeddings_transformed(&self, before: JsonV, after: JsonV, r: Result<(), GatewayError>) -> bool {
        match zhipu_dimension_error(before) {
            Some(msg) => r matches Err(GatewayError::Validation(m)) && m@ == msg && after == before,
            None => r is Ok && keys_removed(before, after, openai_only_embedding_fields()),
        }
    }

    fn embeddings_endpoint_path(&self, model: &str) -> (r: String) {
        to_owned_string("/embeddings")
    }

    fn transform_embeddings_body(&self, body: &mut JsonValue) -> (r: Result<(), GatewayError>) {
        match validate_dimensions(body) {
            Err(e) => Err(e),
            Ok(()) => {
                remove_openai_only_embedding_fields(body);
                Ok(())
            },
        }
    }
}

/// The Azure path of an operation on a deployment.
pub open spec fn azure_deployment_path(model: Seq<char>, operation: Seq<char>) -> Seq<char> {
    "/openai/deployments/"@ + encoded_segment(model) + operation
}

fn azure_path(model: &str, operation: &str) -> (r: String)
    ensures
        r@ == azure_deployment_path(model@, operation@),
{
    let encoded = encode_path_segment(model);
    let prefix = concat("/openai/deployments/", encoded.as_str());
    concat(prefix.as_str(), operation)
}

impl ProviderMeta for AzureDef {
    open spec fn base_url_spec(&self) -> Seq<char> {
        "https://example.openai.azure.com"@
    }

    open spec fn auth_outcome(&self, auth: ProviderAuth, r: Result<Vec<(String, String)>, GatewayError>) -> bool {
        key_header_outcome(r, auth, self.provider_name(), "api-key"@, ""@)
    }

    open spec fn provider_name(&self) -> Seq<char> {
        "azure"@
    }

    open spec fn chat_path(&self, model: Seq<char>) -> Seq<char> {
        azure_deployment_path(model, "/chat/completions"@)
    }

    fn name(&self) -> (r: &'static str) {
        "azure"
    }

    fn default_base_url(&self) -> (r: &'static str)
        ensures
            r@ == "https://example.openai.azure.com"@,
    {
        "https://example.openai.azure.com"
    }

    fn semantic_conventions(&self) -> (r: ProviderSemanticConventions)
        ensures
            r.gen_ai_provider_name@ == "azure.ai.openai"@,
            r.llm_system@ == "openai"@,
            r.llm_provider matches Some(p) && p@ == "azure"@,
    {
        ProviderSemanticConventions {
            gen_ai_provider_name: "azure.ai.openai",
            llm_system: "openai",
            llm_provider: Some("azure"),
        }
    }

    fn chat_endpoint_path(&self, model: &str) -> (r: String) {
        azure_path(model, "/chat/completions")
    }

    fn build_auth_headers(&self, auth: &ProviderAuth) -> (r: Result<Vec<(String, String)>, GatewayError>)
        ensures
            key_header_outcome(r, *auth, self.provider_name(), "api-key"@, ""@),
    {
        api_key_header(self.name(), auth, "api-key", "")
    }

    fn stream_reader_kind(&self) -> (r: StreamReaderKind) {
        StreamReaderKind::Sse
    }
}

impl ChatTransform for AzureDef {
    open spec fn quirks_view(&self) -> QuirksV {
        QuirksV { inject_stream_usage: true, ..no_quirks() }
    }

    /// Usage is asked for in streams, and the model, which the deployment
    /// path names, leaves the body.
    open spec fn transforms_body(&self, before: JsonV, after: JsonV) -> bool {
        quirks_applied(seq!["model"@], Seq::empty(), true, before, after)
    }

    fn default_quirks(&self) -> (r: CompatQuirks) {
        let mut q = CompatQuirks::none();
        q.inject_stream_usage = true;
        q
    }

    fn transform_request_body(&self, body: &mut JsonValue) {
        let ghost before = body@;
        let q = self.default_quirks();
        q.apply_to_request(body);
        let ghost mid = body@;
        remove_field(body, "model");
        proof {
            lemma_azure_body(before, mid, body@);
        }
    }
}

/// Asking for stream usage and then dropping the model is dropping the
/// model and asking for stream usage.
proof fn lemma_azure_body(before: JsonV, mid: JsonV, after: JsonV)
    requires
        quirks_applied(Seq::empty(), Seq::empty(), true, before, mid),
        field_removed(mid, after, "model"@),
    ensures
        quirks_applied(seq!["model"@], Seq::empty(), true, before, after),
{
    reveal_strlit("model");
    reveal_strlit("stream");
    reveal_strlit("stream_options");
    reveal_strlit("include_usage");
    if before is Object {
        let m = obj_map(before->Object_0);
        let keys = seq!["model"@];
        assert(keys.drop_last() =~= Seq::<Seq<char>>::empty());
        assert(without_keys(m, Seq::empty()) == m);
        assert(apply_renames(m, Seq::empty()) == m);
        assert(without_keys(m, keys) == m.remove("model"@));
        let target = m.remove("model"@);
        assert(apply_renames(target, Seq::empty()) == target);
        let am = obj_map(mid->Object_0);
        let fm = obj_map(after->Object_0);
        assert("stream"@.len() == 6 && "model"@.len() == 5 && "stream_options"@.len() == 14);
        assert("stream"@ != "model"@);
        assert("stream_options"@ != "model"@);
        assert(streams_true(target) == streams_true(m));
        assert(usage_options(target) =~= usage_options(m));
        assert(crate::provider::quirk_fields(Seq::empty(), Seq::empty(), before->Object_0) == m);
        if streams_true(m) {
            assert(am.remove("stream_options"@) == m.remove("stream_options"@));
            assert(fm == am.remove("model"@));
            assert(fm.remove("stream_options"@) =~= am.remove("stream_options"@).remove("model"@));
            assert(target.remove("stream_options"@) =~= m.remove("stream_options"@).remove("model"@));
        } else {
            assert(fm =~= target);
        }
    }
}

impl EmbedTransform for AzureDef {
    open spec fn embeddings_path(&self, model: Seq<char>) -> Seq<char> {
        azure_deployment_path(model, "/embeddings"@)
    }

    open spec fn embeddings_transformed(&self, before: JsonV, after: JsonV, r: Result<(), GatewayError>) -> bool {
        r is Ok && field_removed(before, after, "model"@)
    }

    fn embeddings_endpoint_path(&self, model: &str) -> (r: String) {
        azure_path(model, "/embeddings")
    }

    fn transform_embeddings_body(&self, body: &mut JsonValue) -> (r: Result<(), GatewayError>) {
        remove_field(body, "model");
        Ok(())
    }
}

impl ProviderMeta for Groq {
    open spec fn base_url_spec(&self) -> Seq<char> {
        "https://api.groq.com/openai"@
    }

    open spec fn auth_outcome(&self, auth: ProviderAuth, r: Result<Vec<(String, String)>, GatewayError>) -> bool {
        key_header_outcome(r, auth, self.provider_name(), "authorization"@, "Bearer "@)
    }

    open spec fn provider_name(&self) -> Seq<char> {
        "groq"@
    }

    open spec fn chat_path(&self, model: Seq<char>) -> Seq<char> {
        default_chat_path()
    }

    fn name(&self) -> (r: &'static str) {
        "groq"
    }

    fn default_base_url(&self) -> (r: &'static str)
        ensures
            r@ == "https://api.groq.com/openai"@,
    {
        "https://api.groq.com/openai"
    }

    fn chat_endpoint_path(&self, model: &str) -> (r: String) {
        to_owned_string("/v1/chat/completions")
    }

    fn build_auth_headers(&self, auth: &ProviderAuth) -> (r: Result<Vec<(String, String)>, GatewayError>)
        ensures
            key_header_outcome(r, *auth, self.provider_name(), "authorization"@, "Bearer "@),
    {
        bearer_auth_headers(self.name(), auth)
    }

    fn stream_reader_kind(&self) -> (r: StreamReaderKind) {
        StreamReaderKind::Sse
    }
}

/// The request fields Groq refuses.
pub open spec fn groq_unsupported() -> Seq<Seq<char>> {
    seq!["logprobs"@, "logit_bias"@, "top_logprobs"@]
}

/// `after` is the message list `before` with `name` removed from each
/// message object; anything but a list is left alone.
pub open spec fn messages_stripped(before: JsonV, after: JsonV) -> bool {
    match before {
        JsonV::Array(items) => {
            &&& after is Array
            &&& after->Array_0.len() == items.len()
            &&& forall|i: int|
                0 <= i < items.len() ==> field_removed(#[trigger] items[i], after->Array_0[i], "name"@)
        },
        _ => after == before,
    }
}

/// The request map `am` is `m` made ready for Groq: message names
/// removed, and `n`, where present, set to 1.
pub open spec fn groq_fields(m: Map<Seq<char>, JsonV>, am: Map<Seq<char>, JsonV>) -> bool {
    &&& am.dom() == m.dom()
    &&& forall|k: Seq<char>| #[trigger] m.contains_key(k) && k != "messages"@ && k != "n"@ ==> am[k] == m[k]
    &&& m.contains_key("n"@) ==> am["n"@] == JsonV::Number("1"@)
    &&& m.contains_key("messages"@) ==> messages_stripped(m["messages"@], am["messages"@])
}

/// Removes `name` from every message object of a message list.
fn strip_message_names(messages: &mut JsonValue)
    requires
        value_wf(old(messages)@),
    ensures
        messages_stripped(old(messages)@, final(messages)@),
        value_wf(final(messages)@),
{
    let mut taken = JsonValue::Null;
    std::mem::swap(&mut taken, messages);
    match taken {
        JsonValue::Array(mut items) => {
            let ghost orig = json_view(JsonValue::Array(items))->Array_0;
            let mut i: usize = 0;
            while i < items.len()
                invariant
                    0 <= i <= items@.len(),
                    items@.len() == orig.len(),
                    forall|j: int|
                        0 <= j < orig.len() && (#[trigger] orig[j]) is Object ==> keys_unique(orig[j]->Object_0),
                    forall|j: int| 0 <= j < i ==> field_removed(orig[j], (#[trigger] items@[j])@, "name"@),
                    forall|j: int| i <= j < orig.len() ==> (#[trigger] items@[j])@ == orig[j],
                decreases items.len() - i,
            {
                assert(items@[i as int]@ == orig[i as int]);
                remove_field(&mut items[i], "name");
                i += 1;
            }
            let ghost fin = items@;
            *messages = JsonValue::Array(items);
            proof {
                let out = json_view(*messages)->Array_0;
                assert forall|j: int| 0 <= j < orig.len() implies field_removed(
                    #[trigger] orig[j],
                    out[j],
                    "name"@,
                ) by {
                    assert(out[j] == fin[j]@);
                }
                assert forall|j: int| 0 <= j < out.len() && (#[trigger] out[j]) is Object implies keys_unique(
                    out[j]->Object_0,
                ) by {
                    assert(out[j] == fin[j]@);
                    assert(field_removed(orig[j], fin[j]@, "name"@));
                }
            }
        },
        other => {
            *messages = other;
        },
    }
}

/// Strips message names and pins `n` to 1 in an object body.
fn groq_adjust(body: &mut JsonValue)
    requires
        body_wf(old(body)@),
    ensures
        match old(body)@ {
            JsonV::Object(fs) => {
                &&& final(body)@ is Object
                &&& keys_unique(final(body)@->Object_0)
                &&& groq_fields(obj_map(fs), obj_map(final(body)@->Object_0))
            },
            _ => final(body)@ == old(body)@,
        },
{
    proof {
        reveal_strlit("messages");
        reveal_strlit("n");
        assert("messages"@.len() == 8 && "n"@.len() == 1);
    }
    let mut taken = JsonValue::Null;
    std::mem::swap(&mut taken, body);
    match taken {
        JsonValue::Object(mut fields) => {
            proof {
                assert(fields_view(fields@) =~= json_view(JsonValue::Object(fields))->Object_0);
                crate::json::lemma_lookup_cases(fields_view(fields@), "messages"@);
            }
            let ghost m = obj_map(fields_view(fields@));
            match obj_remove(&mut fields, "messages") {
                Some(messages) => {
                    let mut messages = messages;
                    assert(m.contains_key("messages"@) && m["messages"@] == messages@);
                    strip_message_names(&mut messages);
                    obj_insert(&mut fields, to_owned_string("messages"), messages);
                },
                None => {},
            }
            let ghost m1 = obj_map(fields_view(fields@));
            if obj_contains(&fields, "n") {
                obj_insert(&mut fields, to_owned_string("n"), JsonValue::Number(to_owned_string("1")));
            }
            let ghost fv = fields_view(fields@);
            *body = JsonValue::Object(fields);
            proof {
                assert(json_view(*body)->Object_0 =~= fv);
                let am = obj_map(fv);
                assert(am.dom() =~= m.dom());
            }
        },
        other => {
            *body = other;
        },
    }
}

impl ChatTransform for Groq {
    open spec fn quirks_view(&self) -> QuirksV {
        QuirksV { unsupported_params: groq_unsupported(), ..no_quirks() }
    }

    /// The unsupported fields are removed, then message names, and `n`
    /// where present is pinned to 1.
    open spec fn transforms_body(&self, before: JsonV, after: JsonV) -> bool {
        match before {
            JsonV::Object(fs) => {
                &&& after is Object
                &&& keys_unique(after->Object_0)
                &&& groq_fields(
                    crate::provider::quirk_fields(groq_unsupported(), Seq::empty(), fs),
                    obj_map(after->Object_0),
                )
            },
            _ => after == before,
        }
    }

    fn default_quirks(&self) -> (r: CompatQuirks) {
        let mut q = CompatQuirks::none();
        q.unsupported_params =
            vec![to_owned_string("logprobs"), to_owned_string("logit_bias"), to_owned_string("top_logprobs")];
        proof {
            assert(strings_view(q.unsupported_params@) =~= groq_unsupported());
        }
        q
    }

    fn transform_request_body(&self, body: &mut JsonValue) {
        let q = self.default_quirks();
        q.apply_to_request(body);
        groq_adjust(body);
    }
}

impl ProviderCapabilities for Mistral {
    open spec fn embeds(&self) -> bool {
        false
    }

    fn as_embed_transform(&self) -> (r: Option<&Self>) {
        None
    }
}

impl ProviderCapabilities for OpenRouter {
    open spec fn embeds(&self) -> bool {
        false
    }

    fn as_embed_transform(&self) -> (r: Option<&Self>) {
        None
    }
}

impl ProviderCapabilities for StepFun {
    open spec fn embeds(&self) -> bool {
        false
    }

    fn as_embed_transform(&self) -> (r: Option<&Self>) {
        None
    }
}

impl ProviderCapabilities for ModelScope {
    open spec fn embeds(&self) -> bool {
        false
    }

    fn as_embed_transform(&self) -> (r: Option<&Self>) {
        None
    }
}

impl ProviderCapabilities for ModelScopeCn {
    open spec fn embeds(&self) -> bool {
        false
    }

    fn as_embed_transform(&self) -> (r: Option<&Self>) {
        None
    }
}

impl ProviderCapabilities for Xai {
    open spec fn embeds(&self) -> bool {
        false
    }

    fn as_embed_transform(&self) -> (r: Option<&Self>) {
        None
    }
}

impl ProviderCapabilities for Groq {
    open spec fn embeds(&self) -> bool {
        false
    }

    fn as_embed_transform(&self) -> (r: Option<&Self>) {
        None
    }
}

impl ProviderCapabilities for GoogleDef {
    open spec fn embeds(&self) -> bool {
        true
    }

    fn as_embed_transform(&self) -> (r: Option<&Self>) {
        Some(self)
    }
}

impl ProviderCapabilities for FireworksAi {
    open spec fn embeds(&self) -> bool {
        true
    }

    fn as_embed_transform(&self) -> (r: Option<&Self>) {
        Some(self)
    }
}

impl ProviderCapabilities for ZhipuAi {
    open spec fn embeds(&self) -> bool {
        true
    }

    fn as_embed_transform(&self) -> (r: Option<&Self>) {
        Some(self)
    }
}

impl ProviderCapabilities for AzureDef {
    open spec fn embeds(&self) -> bool {
        true
    }

    fn as_embed_transform(&self) -> (r: Option<&Self>) {
        Some(self)
    }
}


/// ZhipuAI's `embedding-3` takes 256, 512, 1024 and 2048 dimensions, and
/// refuses every other count.
pub proof fn law_embedding3_dimensions(fs: Seq<(Seq<char>, JsonV)>, d: JsonV, n: u64)
    requires
        field_lookup(fs, "model"@) == Some(JsonV::Str("embedding-3"@)),
        field_lookup(fs, "dimensions"@) == Some(d),
        json_u64(d) == Some(n),
    ensures
        (n == 256 || n == 512 || n == 1024 || n == 2048) ==> zhipu_dimension_error(JsonV::Object(fs)) is None,
        !(n == 256 || n == 512 || n == 1024 || n == 2048) ==> zhipu_dimension_error(JsonV::Object(fs)) is Some,
{
    reveal_strlit("embedding-3");
    reveal_strlit("embedding-2");
    assert("embedding-3"@ != "embedding-2"@) by {
        assert("embedding-3"@[10] != "embedding-2"@[10]);
    }
}

} // verus!
