//! The gateway's work around a provider call: the provider instance a
//! request goes to, the JSON request that is sent, and what the provider's
//! answer gives.
use vstd::prelude::*;

use crate::auth::{GatewayError, ProviderAuth};
use crate::json::{json_parse_bytes, json_text, parse_json_slice, to_json_text, JsonV, JsonValue};
use crate::provider::{
    body_wf, endpoint_url_spec, ensure_chat_stream_reader_supported, join_url, join_url_spec, mentions_json, pairs_view,
    parse_http_response_body, parse_url_text, unsupported_reader_message, url_parse, HttpResponseBody,
    StreamReaderKind,
};
use crate::providers::{ChatTransform, EmbedTransform, ProviderCapabilities, ProviderMeta};
use crate::text::{
    concat, decode_utf8_lossy, eq_ignore_ascii_case, str_eq_ignore_ascii_case, to_owned_string,
    utf8_lossy,
};

verus! {

/// The longest wait for a connection to a provider, in seconds.
pub const CONNECT_TIMEOUT_SECS: u64 = 10;

/// The longest wait for a complete (not streamed) answer, in seconds.
pub const COMPLETE_REQUEST_TIMEOUT_SECS: u64 = 30;

/// Whether some header has this name; header names ignore ASCII case.
pub open spec fn header_named(hs: Seq<(Seq<char>, Seq<char>)>, name: Seq<char>) -> bool
    decreases hs.len(),
{
    if hs.len() == 0 {
        false
    } else {
        eq_ignore_ascii_case(hs.last().0, name) || header_named(hs.drop_last(), name)
    }
}

/// Whether some header has this name.
pub fn has_header(hs: &Vec<(String, String)>, name: &str) -> (r: bool)
    ensures
        r == header_named(pairs_view(hs@), name@),
{
    let ghost v = pairs_view(hs@);
    let mut found = false;
    let mut i: usize = 0;
    while i < hs.len()
        invariant
            0 <= i <= hs@.len(),
            v == pairs_view(hs@),
            found == header_named(v.take(i as int), name@),
        decreases hs.len() - i,
    {
        proof {
            assert(v.take(i + 1).drop_last() =~= v.take(i as int));
            assert(v.take(i + 1).last() == v[i as int]);
            assert(v[i as int].0 == hs@[i as int].0@);
        }
        if str_eq_ignore_ascii_case(hs[i].0.as_str(), name) {
            found = true;
        }
        i += 1;
    }
    proof {
        assert(v.take(i as int) =~= v);
    }
    found
}

/// The headers of `auth` whose name no header of `custom` has.
pub open spec fn kept_headers(
    auth: Seq<(Seq<char>, Seq<char>)>,
    custom: Seq<(Seq<char>, Seq<char>)>,
) -> Seq<(Seq<char>, Seq<char>)>
    decreases auth.len(),
{
    if auth.len() == 0 {
        Seq::empty()
    } else if header_named(custom, auth.last().0) {
        kept_headers(auth.drop_last(), custom)
    } else {
        kept_headers(auth.drop_last(), custom).push(auth.last())
    }
}

/// Headers `base` extended with `custom`: a custom header replaces every
/// header of its name.
pub open spec fn extended_headers(
    base: Seq<(Seq<char>, Seq<char>)>,
    custom: Seq<(Seq<char>, Seq<char>)>,
) -> Seq<(Seq<char>, Seq<char>)> {
    kept_headers(base, custom) + custom
}

fn copy_header(h: &(String, String)) -> (r: (String, String))
    ensures
        r.0@ == h.0@,
        r.1@ == h.1@,
{
    (to_owned_string(h.0.as_str()), to_owned_string(h.1.as_str()))
}

/// Extends headers with custom ones, which replace those of their names.
pub fn extend_headers(base: &Vec<(String, String)>, custom: &Vec<(String, String)>) -> (r: Vec<(String, String)>)
    ensures
        pairs_view(r@) == extended_headers(pairs_view(base@), pairs_view(custom@)),
{
    let ghost bv = pairs_view(base@);
    let ghost cv = pairs_view(custom@);
    let mut out: Vec<(String, String)> = Vec::new();
    let mut i: usize = 0;
    while i < base.len()
        invariant
            0 <= i <= base@.len(),
            bv == pairs_view(base@),
            cv == pairs_view(custom@),
            pairs_view(out@) == kept_headers(bv.take(i as int), cv),
        decreases base.len() - i,
    {
        proof {
            assert(bv.take(i + 1).drop_last() =~= bv.take(i as int));
            assert(bv.take(i + 1).last() == bv[i as int]);
            assert(bv[i as int] == (base@[i as int].0@, base@[i as int].1@));
        }
        if !has_header(custom, base[i].0.as_str()) {
            let ghost before = out@;
            out.push(copy_header(&base[i]));
            proof {
                assert(pairs_view(out@) =~= pairs_view(before).push(bv[i as int]));
            }
        }
        i += 1;
    }
    proof {
        assert(bv.take(i as int) =~= bv);
    }
    let ghost kept = pairs_view(out@);
    let mut j: usize = 0;
    while j < custom.len()
        invariant
            0 <= j <= custom@.len(),
            cv == pairs_view(custom@),
            pairs_view(out@) == kept + cv.take(j as int),
        decreases custom.len() - j,
    {
        let ghost before = out@;
        out.push(copy_header(&custom[j]));
        proof {
            assert(cv[j as int] == (custom@[j as int].0@, custom@[j as int].1@));
            assert(pairs_view(out@) =~= pairs_view(before).push(cv[j as int]));
            assert(cv.take(j + 1) =~= cv.take(j as int).push(cv[j as int]));
        }
        j += 1;
    }
    proof {
        assert(cv.take(j as int) =~= cv);
    }
    out
}

/// A provider as configured for use: its definition, its credentials, a
/// base URL (the text of a parsed URL) in place of the provider's own, and
/// headers sent with every request.
pub struct ProviderInstance<P> {
    pub def: P,
    pub auth: ProviderAuth,
    pub base_url_override: Option<String>,
    pub custom_headers: Vec<(String, String)>,
}

/// The refusal of a provider's default base URL that does not parse.
pub open spec fn invalid_default_base_url_message(provider: Seq<char>, base_url: Seq<char>, error: Seq<char>) -> Seq<char> {
    "provider "@ + provider + " has invalid default_base_url "@ + base_url + ": "@ + error
}

/// Whether `r` is the text of `s`, or the validation error with the
/// message of `s`.
pub open spec fn validation_outcome(s: Result<Seq<char>, Seq<char>>, r: Result<String, GatewayError>) -> bool {
    match s {
        Ok(t) => r matches Ok(x) && x@ == t,
        Err(m) => r matches Err(GatewayError::Validation(x)) && x@ == m,
    }
}

impl<P: ProviderMeta> ProviderInstance<P> {
    /// The base URL requests go to: the configured one, else the text of
    /// the provider's default as a parsed URL.
    pub open spec fn base_url_of(&self) -> Result<Seq<char>, Seq<char>> {
        match self.base_url_override {
            Some(u) => Ok(u@),
            None => match url_parse(self.def.base_url_spec()) {
                Ok(u) => Ok(u),
                Err(e) => Err(
                    invalid_default_base_url_message(self.def.provider_name(), self.def.base_url_spec(), e),
                ),
            },
        }
    }

    /// The chat URL for a model.
    pub open spec fn chat_url_of(&self, model: Seq<char>) -> Result<Seq<char>, Seq<char>> {
        match self.base_url_of() {
            Ok(b) => Ok(endpoint_url_spec(b, self.def.chat_path(model))),
            Err(m) => Err(m),
        }
    }

    /// Whether `r` is the instance's headers: the provider's authentication
    /// headers extended with the custom ones, or the provider's refusal.
    pub open spec fn headers_outcome(&self, r: Result<Vec<(String, String)>, GatewayError>) -> bool {
        exists|a: Result<Vec<(String, String)>, GatewayError>|
            #[trigger] self.def.auth_outcome(self.auth, a) && match a {
                Ok(h) => r matches Ok(x) && pairs_view(x@) == extended_headers(
                    pairs_view(h@),
                    pairs_view(self.custom_headers@),
                ),
                Err(e) => r == Err::<Vec<(String, String)>, GatewayError>(e),
            }
    }

    /// The base URL requests go to.
    pub fn effective_base_url(&self) -> (r: Result<String, GatewayError>)
        ensures
            validation_outcome(self.base_url_of(), r),
    {
        if let Some(u) = &self.base_url_override {
            return Ok(to_owned_string(u.as_str()));
        }
        let default_url = self.def.default_base_url();
        match parse_url_text(default_url) {
            Ok(u) => Ok(u),
            Err(e) => {
                let a = concat("provider ", self.def.name());
                let b = concat(a.as_str(), " has invalid default_base_url ");
                let c = concat(b.as_str(), default_url);
                let d = concat(c.as_str(), ": ");
                Err(GatewayError::Validation(concat(d.as_str(), e.as_str())))
            },
        }
    }

    /// The chat URL for a model.
    pub fn build_url(&self, model: &str) -> (r: Result<String, GatewayError>)
        ensures
            validation_outcome(self.chat_url_of(model@), r),
    {
        let base = self.effective_base_url()?;
        Ok(self.def.build_url(base.as_str(), model))
    }

    /// The headers of every request: authentication, then custom headers.
    pub fn build_headers(&self) -> (r: Result<Vec<(String, String)>, GatewayError>)
        ensures
            self.headers_outcome(r),
    {
        let a = self.def.build_auth_headers(&self.auth);
        let ghost ga = a;
        let r = match a {
            Ok(h) => Ok(extend_headers(&h, &self.custom_headers)),
            Err(e) => Err(e),
        };
        proof {
            assert(self.def.auth_outcome(self.auth, ga));
        }
        r
    }
}

/// A JSON request to a provider, to be sent with `POST`.
#[derive(Debug)]
pub struct PreparedJsonRequest {
    pub url: String,
    pub headers: Vec<(String, String)>,
    pub body: String,
    pub stream: bool,
    /// The longest wait for the answer; none for a stream.
    pub timeout_secs: Option<u64>,
}

/// The refusal of a request URL that does not parse.
pub open spec fn invalid_request_url_message(provider: Seq<char>, url: Seq<char>, error: Seq<char>) -> Seq<char> {
    "provider "@ + provider + " produced invalid request url "@ + url + ": "@ + error
}

/// Headers with a JSON content type unless they name one already.
pub open spec fn with_json_content_type(hs: Seq<(Seq<char>, Seq<char>)>) -> Seq<(Seq<char>, Seq<char>)> {
    if header_named(hs, "content-type"@) {
        hs
    } else {
        hs.push(("content-type"@, "application/json"@))
    }
}

/// Whether `r` is the JSON request of `provider` to `url` with these
/// headers and body, or the refusal of the URL.
pub open spec fn prepared_outcome(
    provider: Seq<char>,
    url: Seq<char>,
    headers: Seq<(Seq<char>, Seq<char>)>,
    body: JsonV,
    stream: bool,
    r: Result<PreparedJsonRequest, GatewayError>,
) -> bool {
    match url_parse(url) {
        Err(e) => r matches Err(GatewayError::Validation(m)) && m@ == invalid_request_url_message(provider, url, e),
        Ok(u) => r matches Ok(p) && {
            &&& p.url@ == u
            &&& pairs_view(p.headers@) == with_json_content_type(headers)
            &&& p.body@ == json_text(body)
            &&& p.stream == stream
            &&& p.timeout_secs == if stream {
                None::<u64>
            } else {
                Some(COMPLETE_REQUEST_TIMEOUT_SECS)
            }
        },
    }
}

/// The JSON request of a provider: the URL must parse, the body is
/// written as JSON, a JSON content type is added unless one is named, and
/// a complete (not streamed) answer is waited for at most
/// `COMPLETE_REQUEST_TIMEOUT_SECS`.
pub fn prepare_json_request(
    provider: &str,
    url: &str,
    headers: Vec<(String, String)>,
    body: &JsonValue,
    stream: bool,
) -> (r: Result<PreparedJsonRequest, GatewayError>)
    ensures
        prepared_outcome(provider@, url@, pairs_view(headers@), body@, stream, r),
{
    let parsed = match parse_url_text(url) {
        Ok(u) => u,
        Err(e) => {
            let a = concat("provider ", provider);
            let b = concat(a.as_str(), " produced invalid request url ");
            let c = concat(b.as_str(), url);
            let d = concat(c.as_str(), ": ");
            return Err(GatewayError::Validation(concat(d.as_str(), e.as_str())));
        },
    };
    let text = to_json_text(body);
    let mut headers = headers;
    if !has_header(&headers, "content-type") {
        let ghost before = pairs_view(headers@);
        headers.push((to_owned_string("content-type"), to_owned_string("application/json")));
        proof {
            assert(pairs_view(headers@) =~= before.push(("content-type"@, "application/json"@)));
        }
    }
    let timeout_secs = if stream {
        None
    } else {
        Some(COMPLETE_REQUEST_TIMEOUT_SECS)
    };
    Ok(PreparedJsonRequest { url: parsed, headers, body: text, stream, timeout_secs })
}

/// The request for a chat completion through the hub path: a stream the
/// provider frames in a way the gateway cannot read is refused before
/// anything else; then the body is made ready for the provider, and the
/// chat URL, the headers and the request follow.
pub fn hub_chat_request<P: ChatTransform>(
    instance: &ProviderInstance<P>,
    model: &str,
    body: &mut JsonValue,
    stream: bool,
) -> (r: Result<PreparedJsonRequest, GatewayError>)
    requires
        body_wf(old(body)@),
    ensures
        stream && instance.def.reader_kind() == StreamReaderKind::JsonArrayStream ==> {
            &&& r matches Err(GatewayError::Validation(m)) && m@ == unsupported_reader_message()
            &&& final(body)@ == old(body)@
        },
        !(stream && instance.def.reader_kind() == StreamReaderKind::JsonArrayStream) ==> {
            &&& instance.def.transforms_body(old(body)@, final(body)@)
            &&& match instance.chat_url_of(model@) {
                Err(m) => r matches Err(GatewayError::Validation(x)) && x@ == m,
                Ok(url) => exists|a: Result<Vec<(String, String)>, GatewayError>|
                    #[trigger] instance.def.auth_outcome(instance.auth, a) && match a {
                        Err(e) => r == Err::<PreparedJsonRequest, GatewayError>(e),
                        Ok(h) => prepared_outcome(
                            instance.def.provider_name(),
                            url,
                            extended_headers(pairs_view(h@), pairs_view(instance.custom_headers@)),
                            final(body)@,
                            stream,
                            r,
                        ),
                    },
            }
        },
{
    if stream {
        ensure_chat_stream_reader_supported(instance.def.stream_reader_kind())?;
    }
    instance.def.transform_request_body(body);
    let url = instance.build_url(model)?;
    let headers = instance.build_headers();
    let ghost gh = headers;
    let headers = match headers {
        Ok(h) => h,
        Err(e) => {
            return Err(e);
        },
    };
    let r = prepare_json_request(instance.def.name(), url.as_str(), headers, body, stream);
    proof {
        let a = choose|a: Result<Vec<(String, String)>, GatewayError>|
            #[trigger] instance.def.auth_outcome(instance.auth, a) && match a {
                Ok(h) => gh matches Ok(x) && pairs_view(x@) == extended_headers(
                    pairs_view(h@),
                    pairs_view(instance.custom_headers@),
                ),
                Err(e) => gh == Err::<Vec<(String, String)>, GatewayError>(e),
            };
        assert(instance.def.auth_outcome(instance.auth, a));
    }
    r
}

/// The request for a chat completion through a provider's native path,
/// once the format has given the endpoint path and the body: a stream the
/// provider frames in a way the gateway cannot read is refused first; then
/// the endpoint path is joined to the base URL, and the headers and the
/// request follow.
pub fn native_chat_request<P: ProviderMeta>(
    instance: &ProviderInstance<P>,
    endpoint_path: &str,
    body: &JsonValue,
    stream: bool,
) -> (r: Result<PreparedJsonRequest, GatewayError>)
    ensures
        stream && instance.def.reader_kind() == StreamReaderKind::JsonArrayStream ==> (r matches Err(
            GatewayError::Validation(m),
        ) && m@ == unsupported_reader_message()),
        !(stream && instance.def.reader_kind() == StreamReaderKind::JsonArrayStream) ==> match instance.base_url_of() {
            Err(m) => r matches Err(GatewayError::Validation(x)) && x@ == m,
            Ok(b) => exists|a: Result<Vec<(String, String)>, GatewayError>|
                #[trigger] instance.def.auth_outcome(instance.auth, a) && match a {
                    Err(e) => r == Err::<PreparedJsonRequest, GatewayError>(e),
                    Ok(h) => prepared_outcome(
                        instance.def.provider_name(),
                        join_url_spec(b, endpoint_path@),
                        extended_headers(pairs_view(h@), pairs_view(instance.custom_headers@)),
                        body@,
                        stream,
                        r,
                    ),
                },
        },
{
    if stream {
        ensure_chat_stream_reader_supported(instance.def.stream_reader_kind())?;
    }
    let base_url = instance.effective_base_url()?;
    let url = join_url(base_url.as_str(), endpoint_path);
    let headers = instance.build_headers();
    let ghost gh = headers;
    let ghost ga = choose|a: Result<Vec<(String, String)>, GatewayError>|
        #[trigger] instance.def.auth_outcome(instance.auth, a) && match a {
            Ok(h) => gh matches Ok(x) && pairs_view(x@) == extended_headers(
                pairs_view(h@),
                pairs_view(instance.custom_headers@),
            ),
            Err(e) => gh == Err::<Vec<(String, String)>, GatewayError>(e),
        };
    proof {
        assert(instance.def.auth_outcome(instance.auth, ga));
    }
    let headers = match headers {
        Ok(h) => h,
        Err(e) => {
            return Err(e);
        },
    };
    prepare_json_request(instance.def.name(), url.as_str(), headers, body, stream)
}

/// The refusal of embeddings by a provider that offers none.
pub open spec fn embeddings_refused(provider: Seq<char>, r: Result<PreparedJsonRequest, GatewayError>) -> bool {
    r matches Err(GatewayError::EmbeddingsNotSupported { provider: p }) && p@ == provider
}

/// The request for embeddings: refused where the provider offers none;
/// then the URL under the base URL, the headers, the body made ready for
/// the provider and the request follow.
pub fn embed_request<P: ProviderCapabilities + EmbedTransform>(
    instance: &ProviderInstance<P>,
    model: &str,
    body: &mut JsonValue,
) -> (r: Result<PreparedJsonRequest, GatewayError>)
    requires
        body_wf(old(body)@),
    ensures
        !instance.def.embeds() ==> embeddings_refused(instance.def.provider_name(), r) && final(body)@ == old(
            body,
        )@,
        instance.def.embeds() ==> match instance.base_url_of() {
            Err(m) => (r matches Err(GatewayError::Validation(x)) && x@ == m) && final(body)@ == old(body)@,
            Ok(b) => exists|a: Result<Vec<(String, String)>, GatewayError>|
                #[trigger] instance.def.auth_outcome(instance.auth, a) && match a {
                    Err(e) => r == Err::<PreparedJsonRequest, GatewayError>(e) && final(body)@ == old(body)@,
                    Ok(h) => exists|t: Result<(), GatewayError>|
                        #[trigger] instance.def.embeddings_transformed(old(body)@, final(body)@, t) && match t {
                            Err(e) => r == Err::<PreparedJsonRequest, GatewayError>(e),
                            Ok(_) => prepared_outcome(
                                instance.def.provider_name(),
                                endpoint_url_spec(b, instance.def.embeddings_path(model@)),
                                extended_headers(pairs_view(h@), pairs_view(instance.custom_headers@)),
                                final(body)@,
                                false,
                                r,
                            ),
                        },
                },
        },
{
    if instance.def.as_embed_transform().is_none() {
        return Err(GatewayError::EmbeddingsNotSupported { provider: to_owned_string(instance.def.name()) });
    }
    let endpoint_path = instance.def.embeddings_endpoint_path(model);
    let base_url = instance.effective_base_url()?;
    let url = instance.def.build_url_for_endpoint(base_url.as_str(), endpoint_path.as_str());
    let headers = instance.build_headers();
    let ghost gh = headers;
    let ghost ga = choose|a: Result<Vec<(String, String)>, GatewayError>|
        #[trigger] instance.def.auth_outcome(instance.auth, a) && match a {
            Ok(h) => gh matches Ok(x) && pairs_view(x@) == extended_headers(
                pairs_view(h@),
                pairs_view(instance.custom_headers@),
            ),
            Err(e) => gh == Err::<Vec<(String, String)>, GatewayError>(e),
        };
    let headers = match headers {
        Ok(h) => h,
        Err(e) => {
            proof {
                assert(instance.def.auth_outcome(instance.auth, ga));
            }
            return Err(e);
        },
    };
    let t = instance.def.transform_embeddings_body(body);
    let ghost gt = t;
    let r = match t {
        Ok(()) => prepare_json_request(instance.def.name(), url.as_str(), headers, body, false),
        Err(e) => Err(e),
    };
    proof {
        assert(instance.def.auth_outcome(instance.auth, ga));
        assert(instance.def.embeddings_transformed(old(body)@, body@, gt));
    }
    r
}

/// Whether an answer with this status may succeed when tried again: too
/// many requests, or a server error.
pub open spec fn retryable_status(status: u16) -> bool {
    status == 429 || (500 <= status && status < 600)
}

/// The body a provider error carries: the answer's JSON, else its text
/// decoded leniently as UTF-8; null where it could not be read.
pub open spec fn provider_error_body(body: Option<Seq<u8>>) -> JsonV {
    match body {
        None => JsonV::Null,
        Some(b) => match json_parse_bytes(b) {
            Ok(v) => v,
            Err(_) => JsonV::Str(utf8_lossy(b)),
        },
    }
}

/// The error for a provider's answer with an error status, given the
/// answer's body where it could be read.
pub fn provider_error(status: u16, body: Option<&[u8]>, provider: &str) -> (r: GatewayError)
    ensures
        r matches GatewayError::Provider { status: s, body: b, provider: p, retryable } && {
            &&& s == status
            &&& b@ == provider_error_body(
                match body {
                    Some(x) => Some(x@),
                    None => None,
                },
            )
            &&& p@ == provider@
            &&& retryable == retryable_status(status)
        },
        (status == 429 || (500 <= status && status < 600)) ==> (r matches GatewayError::Provider { retryable, .. }
            && retryable),
        !(status == 429 || (500 <= status && status < 600)) ==> (r matches GatewayError::Provider { retryable, .. }
            && !retryable),
{
    let value = match body {
        None => JsonValue::Null,
        Some(bytes) => match parse_json_slice(bytes) {
            Ok(v) => v,
            Err(_) => JsonValue::Str(decode_utf8_lossy(bytes)),
        },
    };
    let retryable = status == 429 || (500 <= status && status < 600);
    GatewayError::Provider { status, body: value, provider: to_owned_string(provider), retryable }
}

/// The refusal of an embeddings answer that is not JSON.
pub open spec fn embedding_not_json_message() -> Seq<char> {
    "embedding response must be JSON"@
}

/// The JSON of a successful embeddings answer: a body that is not JSON is
/// refused, with the parser's words where the content type says JSON.
pub fn embedding_response_json(content_type: Option<&str>, body: &[u8]) -> (r: Result<JsonValue, GatewayError>)
    ensures
        match json_parse_bytes(body@) {
            Ok(v) => r matches Ok(x) && x@ == v,
            Err(m) => r matches Err(GatewayError::Transform(x)) && x@ == if mentions_json(
                match content_type {
                    Some(t) => Some(t@),
                    None => None,
                },
            ) {
                m
            } else {
                embedding_not_json_message()
            },
        },
{
    match parse_http_response_body(content_type, body)? {
        HttpResponseBody::Json(v) => Ok(v),
        HttpResponseBody::Binary => Err(GatewayError::Transform(to_owned_string("embedding response must be JSON"))),
    }
}


/// Too many requests (429) and every server error (500 to 599) may succeed
/// when tried again; every other status may not.
pub proof fn law_retryable_statuses(status: u16)
    ensures
        status == 429 ==> retryable_status(status),
        500 <= status && status < 600 ==> retryable_status(status),
        status < 500 && status != 429 ==> !retryable_status(status),
        status >= 600 ==> !retryable_status(status),
{
}

} // verus!
