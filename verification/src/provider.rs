//! What every provider shares: its metadata, URL building, authentication
//! headers, declarative request quirks and the reading of SSE data lines.
use vstd::prelude::*;

use crate::auth::{missing_api_key_message, provider_context, GatewayError, ProviderAuth};
use crate::json::{
    field_lookup, fields_view, has_key, json_view, keys_unique, obj_contains, obj_get, obj_insert, obj_map, obj_remove,
    JsonV, JsonValue,
};
use crate::text::{
    opt_view, chars_of, concat, has_prefix, starts_with, str_eq, string_of_range, strip_prefix, to_owned_string,
    trim, trim_end_char, trim_end_char_spec, trim_spec, trim_start, trim_start_spec,
};

verus! {

/// How a provider's stream is framed.
#[derive(Clone, Copy, Debug, PartialEq, Eq, Structural)]
pub enum StreamReaderKind {
    Sse,
    AwsEventStream,
    JsonArrayStream,
}

/// The message for a stream framing the gateway cannot read yet.
pub open spec fn unsupported_reader_message() -> Seq<char> {
    "stream reader kind JsonArrayStream is not implemented yet"@
}

/// Refuses stream framings the gateway cannot read.
pub fn ensure_chat_stream_reader_supported(kind: StreamReaderKind) -> (r: Result<(), GatewayError>)
    ensures
        kind != StreamReaderKind::JsonArrayStream ==> r is Ok,
        kind == StreamReaderKind::JsonArrayStream ==> (r matches Err(GatewayError::Validation(m)) && m@
            == unsupported_reader_message()),
{
    match kind {
        StreamReaderKind::Sse | StreamReaderKind::AwsEventStream => Ok(()),
        StreamReaderKind::JsonArrayStream => Err(GatewayError::Validation(to_owned_string(
            "stream reader kind JsonArrayStream is not implemented yet",
        ))),
    }
}

/// OpenTelemetry and OpenInference names of a provider.
#[derive(Clone, Copy, Debug, PartialEq, Eq)]
pub struct ProviderSemanticConventions {
    pub gen_ai_provider_name: &'static str,
    pub llm_system: &'static str,
    pub llm_provider: Option<&'static str>,
}

/// The conventions of a provider known by its name alone: the name serves
/// as both system and provider name.
pub fn name_based_conventions(name: &'static str) -> (r: ProviderSemanticConventions)
    ensures
        r.gen_ai_provider_name@ == name@,
        r.llm_system@ == name@,
        r.llm_provider is None,
{
    ProviderSemanticConventions { gen_ai_provider_name: name, llm_system: name, llm_provider: None }
}

/// `base` without trailing slashes, followed by `endpoint`, with one slash
/// between them where `endpoint` does not start with one.
pub open spec fn join_url_spec(base: Seq<char>, endpoint: Seq<char>) -> Seq<char> {
    let b = trim_end_char_spec(base, '/');
    if has_prefix(endpoint, "/"@) {
        b + endpoint
    } else {
        b + "/"@ + endpoint
    }
}

/// Joins a base URL and an endpoint path.
pub fn join_url(base_url: &str, endpoint_path: &str) -> (r: String)
    ensures
        r@ == join_url_spec(base_url@, endpoint_path@),
{
    let base = trim_end_char(base_url, '/');
    if starts_with(endpoint_path, "/") {
        concat(base.as_str(), endpoint_path)
    } else {
        let with_slash = concat(base.as_str(), "/");
        concat(with_slash.as_str(), endpoint_path)
    }
}

/// Whether a character may stand in an HTTP header value.
pub open spec fn header_char_ok(c: char) -> bool {
    (c as u32 >= 32 && c as u32 != 127) || c == '\t'
}

/// Whether a text is a valid HTTP header value.
pub open spec fn header_value_ok(s: Seq<char>) -> bool {
    forall|i: int| 0 <= i < s.len() ==> header_char_ok(#[trigger] s[i])
}

/// The message of `http`'s error for an invalid header value.
pub open spec fn invalid_header_message() -> Seq<char> {
    "failed to parse header value"@
}

/// Checks a header value with `http::HeaderValue::from_str`.
///
/// Trusted: `from_str` accepts a text exactly when each of its bytes is a
/// tab or at least 32 and not 127 (so every non-ASCII character passes),
/// and its error reads `failed to parse header value`.
#[verifier::external_body]
pub(crate) fn check_header_value(value: &str) -> (r: Result<(), String>)
    ensures
        r is Ok <==> header_value_ok(value@),
        r matches Err(m) ==> m@ == invalid_header_message(),
{
    http::HeaderValue::from_str(value).map(|_| ()).map_err(|e| e.to_string())
}

/// Pairs of texts (headers, renames) as pairs of character sequences.
pub open spec fn pairs_view(h: Seq<(String, String)>) -> Seq<(Seq<char>, Seq<char>)> {
    h.map_values(|p: (String, String)| (p.0@, p.1@))
}

/// Whether `r` is the one header `name: <prefix><api key>`, or the error
/// for a missing key or a key that cannot stand in a header.
pub open spec fn key_header_outcome(
    r: Result<Vec<(String, String)>, GatewayError>,
    auth: ProviderAuth,
    provider: Seq<char>,
    name: Seq<char>,
    prefix: Seq<char>,
) -> bool {
    match auth {
        ProviderAuth::ApiKey(k) => if header_value_ok(prefix + k@) {
            r matches Ok(h) && pairs_view(h@) == seq![(name, prefix + k@)]
        } else {
            r matches Err(GatewayError::Validation(m)) && m@ == invalid_header_message()
        },
        _ => r matches Err(GatewayError::Validation(m)) && m@ == provider_context(provider, missing_api_key_message()),
    }
}

/// The header `name: <prefix><api key>` for a provider.
pub fn api_key_header(provider: &str, auth: &ProviderAuth, name: &str, prefix: &str) -> (r: Result<Vec<(String, String)>, GatewayError>)
    ensures
        key_header_outcome(r, *auth, provider@, name@, prefix@),
{
    let key = auth.api_key_for(provider)?;
    let value = concat(prefix, key);
    match check_header_value(value.as_str()) {
        Ok(()) => {
            let mut headers: Vec<(String, String)> = Vec::new();
            headers.push((to_owned_string(name), value));
            proof {
                assert(pairs_view(headers@) =~= seq![(name@, prefix@ + key@)]);
            }
            Ok(headers)
        },
        Err(m) => Err(GatewayError::Validation(m)),
    }
}

/// The `authorization: Bearer <api key>` header for a provider.
pub fn bearer_auth_headers(provider: &str, auth: &ProviderAuth) -> (r: Result<Vec<(String, String)>, GatewayError>)
    ensures
        key_header_outcome(r, *auth, provider@, "authorization"@, "Bearer "@),
{
    api_key_header(provider, auth, "authorization", "Bearer ")
}

/// What `reqwest::Url::parse` (the `url` crate) makes of a text: the text of
/// the URL it parses to, or the message of the error that refuses it.
pub uninterp spec fn url_parse(text: Seq<char>) -> Result<Seq<char>, Seq<char>>;

/// Whether a text parses as an absolute URL.
pub open spec fn url_parses(text: Seq<char>) -> bool {
    url_parse(text) is Ok
}

/// A result of texts as character sequences.
pub open spec fn text_result_view(r: Result<String, String>) -> Result<Seq<char>, Seq<char>> {
    match r {
        Ok(t) => Ok(t@),
        Err(e) => Err(e@),
    }
}

/// The path segments that `reqwest::Url::path_segments` gives of the URL
/// that a text parses to; none for a URL that cannot be a base.
pub uninterp spec fn url_segments(text: Seq<char>) -> Option<Seq<Seq<char>>>;

/// The text of the URL that a text parses to, after `reqwest::Url::set_path`
/// has replaced its path.
pub uninterp spec fn url_with_path(text: Seq<char>, path: Seq<char>) -> Seq<char>;

/// Parses a URL with `reqwest::Url::parse` (the `url` crate): the text of
/// the URL, with `Url::as_str`, or the message of the error.
///
/// Trusted: the result is `url_parse` of the text.
#[verifier::external_body]
pub(crate) fn parse_url_text(text: &str) -> (r: Result<String, String>)
    ensures
        text_result_view(r) == url_parse(text@),
{
    match reqwest::Url::parse(text) {
        Ok(u) => Ok(u.as_str().to_string()),
        Err(e) => Err(e.to_string()),
    }
}

/// The path segments of the URL a text parses to, with `reqwest::Url::parse`
/// and `Url::path_segments`.
///
/// Trusted: they are `url_segments` of the text, in order.
#[verifier::external_body]
fn url_path_segments(text: &str) -> (r: Option<Vec<String>>)
    requires
        url_parses(text@),
    ensures
        match r {
            Some(v) => url_segments(text@) == Some(strings_view(v@)),
            None => url_segments(text@) is None,
        },
{
    match reqwest::Url::parse(text) {
        Ok(u) => u.path_segments().map(|segments| segments.map(|segment| segment.to_string()).collect()),
        Err(_) => None,
    }
}

/// The text of the URL a text parses to, with its path replaced: with
/// `reqwest::Url::parse`, `Url::set_path` and `Url::to_string`.
///
/// Trusted: the text is `url_with_path` of the two texts.
#[verifier::external_body]
fn url_text_with_path(text: &str, path: &str) -> (r: String)
    requires
        url_parses(text@),
    ensures
        r@ == url_with_path(text@, path@),
{
    match reqwest::Url::parse(text) {
        Ok(mut u) => {
            u.set_path(path);
            u.to_string()
        },
        Err(_) => text.to_string(),
    }
}

/// The parts of a path split at `/`, without empty ones, as completed parts
/// and the part still open.
pub open spec fn parts_state(s: Seq<char>) -> (Seq<Seq<char>>, Seq<char>)
    decreases s.len(),
{
    if s.len() == 0 {
        (Seq::empty(), Seq::empty())
    } else {
        let (ps, cur) = parts_state(s.drop_last());
        if s.last() == '/' {
            if cur.len() > 0 {
                (ps.push(cur), Seq::empty())
            } else {
                (ps, Seq::empty())
            }
        } else {
            (ps, cur.push(s.last()))
        }
    }
}

/// The non-empty parts of a path split at `/`.
pub open spec fn path_parts(s: Seq<char>) -> Seq<Seq<char>> {
    let (ps, cur) = parts_state(s);
    if cur.len() > 0 {
        ps.push(cur)
    } else {
        ps
    }
}

/// The non-empty parts of a path split at `/`.
pub fn split_path(path: &str) -> (r: Vec<String>)
    ensures
        r@.map_values(|x: String| x@) == path_parts(path@),
{
    let cs = chars_of(path);
    let mut parts: Vec<String> = Vec::new();
    let mut start: usize = 0;
    let mut i: usize = 0;
    while i < cs.len()
        invariant
            0 <= start <= i <= cs@.len(),
            cs@ == path@,
            parts_state(cs@.take(i as int)) == (parts@.map_values(|x: String| x@), cs@.subrange(start as int, i as int)),
        decreases cs.len() - i,
    {
        proof {
            assert(cs@.take(i + 1).drop_last() =~= cs@.take(i as int));
            assert(cs@.take(i + 1).last() == cs@[i as int]);
        }
        if cs[i] == '/' {
            if i > start {
                let part = string_of_range(&cs, start, i);
                let ghost before = parts@.map_values(|x: String| x@);
                parts.push(part);
                proof {
                    assert(parts@.map_values(|x: String| x@) =~= before.push(cs@.subrange(start as int, i as int)));
                }
            }
            start = i + 1;
            proof {
                assert(cs@.subrange(start as int, i + 1) =~= Seq::<char>::empty());
            }
        } else {
            proof {
                assert(cs@.subrange(start as int, i + 1) =~= cs@.subrange(start as int, i as int).push(cs@[i as int]));
            }
        }
        i += 1;
    }
    proof {
        assert(cs@.take(i as int) =~= cs@);
    }
    if i > start {
        let part = string_of_range(&cs, start, i);
        let ghost before = parts@.map_values(|x: String| x@);
        parts.push(part);
        proof {
            assert(parts@.map_values(|x: String| x@) =~= before.push(cs@.subrange(start as int, i as int)));
        }
    }
    parts
}

/// Whether the last `c` parts of `b` are the first `c` parts of `e`.
pub open spec fn overlaps(b: Seq<Seq<char>>, e: Seq<Seq<char>>, c: int) -> bool {
    0 <= c <= b.len() && c <= e.len() && b.subrange(b.len() - c, b.len() as int) == e.subrange(0, c)
}

/// The largest overlap of at most `c` parts between the end of `b` and the
/// start of `e`.
pub open spec fn overlap_from(b: Seq<Seq<char>>, e: Seq<Seq<char>>, c: int) -> int
    decreases c,
{
    if c <= 0 {
        0
    } else if overlaps(b, e, c) {
        c
    } else {
        overlap_from(b, e, c - 1)
    }
}

/// The largest overlap between the end of `b` and the start of `e`.
pub open spec fn overlap_spec(b: Seq<Seq<char>>, e: Seq<Seq<char>>) -> int {
    overlap_from(b, e, if b.len() < e.len() {
        b.len() as int
    } else {
        e.len() as int
    })
}

/// Parts joined with `/`.
pub open spec fn join_slash(parts: Seq<Seq<char>>) -> Seq<char>
    decreases parts.len(),
{
    if parts.len() == 0 {
        Seq::empty()
    } else if parts.len() == 1 {
        parts[0]
    } else {
        join_slash(parts.drop_last()) + "/"@ + parts.last()
    }
}

/// The path for an endpoint under a base path: the base's parts, then the
/// endpoint's parts past those that the base already ends with.
pub open spec fn endpoint_path_spec(base: Seq<Seq<char>>, endpoint: Seq<char>) -> Seq<char> {
    let e = path_parts(endpoint);
    "/"@ + join_slash(base + e.subrange(overlap_spec(base, e), e.len() as int))
}

fn parts_equal(b: &Vec<String>, e: &Vec<String>, count: usize) -> (r: bool)
    requires
        count <= b@.len(),
        count <= e@.len(),
    ensures
        r == overlaps(b@.map_values(|x: String| x@), e@.map_values(|x: String| x@), count as int),
{
    let ghost bv = b@.map_values(|x: String| x@);
    let ghost ev = e@.map_values(|x: String| x@);
    let blen = b.len();
    let start = blen - count;
    let mut i: usize = 0;
    while i < count
        invariant
            0 <= i <= count,
            blen == b@.len(),
            start + count == blen,
            count <= b@.len(),
            count <= e@.len(),
            start == b@.len() - count,
            bv == b@.map_values(|x: String| x@),
            ev == e@.map_values(|x: String| x@),
            forall|j: int| 0 <= j < i ==> bv[start + j] == ev[j],
        decreases count - i,
    {
        if !str_eq(b[start + i].as_str(), e[i].as_str()) {
            proof {
                assert(bv.subrange(start as int, bv.len() as int)[i as int] != ev.subrange(0, count as int)[i as int]);
            }
            return false;
        }
        i += 1;
    }
    proof {
        assert(bv.subrange(start as int, bv.len() as int) =~= ev.subrange(0, count as int));
    }
    true
}

/// The path for an endpoint under base path parts, without repeating the
/// parts the base already ends with (such as a version prefix).
pub fn joined_endpoint_path(base: &Vec<String>, endpoint_path: &str) -> (r: String)
    ensures
        r@ == endpoint_path_spec(base@.map_values(|x: String| x@), endpoint_path@),
{
    let ghost bv = base@.map_values(|x: String| x@);
    let e = split_path(endpoint_path);
    let ghost ev = e@.map_values(|x: String| x@);
    let max = if base.len() < e.len() {
        base.len()
    } else {
        e.len()
    };
    let mut c: usize = max;
    while c > 0
        invariant
            c <= max,
            max <= base@.len(),
            max <= e@.len(),
            bv == base@.map_values(|x: String| x@),
            ev == e@.map_values(|x: String| x@),
            overlap_from(bv, ev, max as int) == overlap_from(bv, ev, c as int),
        ensures
            overlap_from(bv, ev, max as int) == c,
        decreases c,
    {
        if parts_equal(base, &e, c) {
            break;
        }
        c -= 1;
    }
    let mut joined = String::new();
    let mut first = true;
    let mut out: Vec<String> = Vec::new();
    let mut i: usize = 0;
    while i < base.len()
        invariant
            0 <= i <= base@.len(),
            out@.map_values(|x: String| x@) == bv.take(i as int),
            bv == base@.map_values(|x: String| x@),
        decreases base.len() - i,
    {
        let ghost before = out@;
        out.push(to_owned_string(base[i].as_str()));
        proof {
            assert(out@.map_values(|x: String| x@) =~= before.map_values(|x: String| x@).push(bv[i as int]));
            assert(bv.take(i + 1) =~= bv.take(i as int).push(bv[i as int]));
        }
        i += 1;
    }
    let mut k: usize = c;
    while k < e.len()
        invariant
            c <= k <= e@.len(),
            out@.map_values(|x: String| x@) == bv + ev.subrange(c as int, k as int),
            ev == e@.map_values(|x: String| x@),
            bv.len() == base@.len(),
        decreases e.len() - k,
    {
        let ghost before = out@;
        out.push(to_owned_string(e[k].as_str()));
        proof {
            assert(out@.map_values(|x: String| x@) =~= before.map_values(|x: String| x@).push(ev[k as int]));
            assert(ev.subrange(c as int, k + 1) =~= ev.subrange(c as int, k as int).push(ev[k as int]));
        }
        k += 1;
    }
    let ghost parts = out@.map_values(|x: String| x@);
    let mut j: usize = 0;
    while j < out.len()
        invariant
            0 <= j <= out@.len(),
            parts == out@.map_values(|x: String| x@),
            joined@ == join_slash(parts.take(j as int)),
            first == (j == 0),
        decreases out.len() - j,
    {
        proof {
            assert(parts.take(j + 1).drop_last() =~= parts.take(j as int));
        }
        if first {
            joined = to_owned_string(out[j].as_str());
            first = false;
        } else {
            let with_slash = concat(joined.as_str(), "/");
            joined = concat(with_slash.as_str(), out[j].as_str());
        }
        j += 1;
    }
    proof {
        assert(parts.take(j as int) =~= parts);
        assert(bv.take(base@.len() as int) =~= bv);
        assert(ev.subrange(c as int, ev.len() as int) == ev.subrange(overlap_spec(bv, ev), ev.len() as int));
    }
    concat("/", joined.as_str())
}

/// The parts that are not empty, in order.
pub open spec fn nonempty_parts(s: Seq<Seq<char>>) -> Seq<Seq<char>>
    decreases s.len(),
{
    if s.len() == 0 {
        Seq::empty()
    } else if s.last().len() > 0 {
        nonempty_parts(s.drop_last()).push(s.last())
    } else {
        nonempty_parts(s.drop_last())
    }
}

/// The non-empty path parts of the base URL that a text parses to.
pub open spec fn base_url_parts(text: Seq<char>) -> Seq<Seq<char>> {
    match url_segments(text) {
        Some(s) => nonempty_parts(s),
        None => Seq::empty(),
    }
}

/// The request URL for an endpoint under a base URL.
pub open spec fn endpoint_url_spec(base_url: Seq<char>, endpoint_path: Seq<char>) -> Seq<char> {
    if url_parses(base_url) {
        url_with_path(base_url, endpoint_path_spec(base_url_parts(base_url), endpoint_path))
    } else {
        trim_end_char_spec(base_url, '/') + endpoint_path
    }
}

fn nonempty_strings(v: Vec<String>) -> (r: Vec<String>)
    ensures
        strings_view(r@) == nonempty_parts(strings_view(v@)),
{
    let ghost vv = strings_view(v@);
    let mut out: Vec<String> = Vec::new();
    let mut i: usize = 0;
    while i < v.len()
        invariant
            0 <= i <= v@.len(),
            vv == strings_view(v@),
            strings_view(out@) == nonempty_parts(vv.take(i as int)),
        decreases v.len() - i,
    {
        let ghost before = out@;
        proof {
            assert(vv.take(i + 1).drop_last() =~= vv.take(i as int));
            assert(vv.take(i + 1).last() == vv[i as int]);
            assert(vv[i as int] == v@[i as int]@);
        }
        if v[i].as_str().unicode_len() > 0 {
            out.push(to_owned_string(v[i].as_str()));
            proof {
                assert(strings_view(out@) =~= strings_view(before).push(vv[i as int]));
            }
        }
        i += 1;
    }
    proof {
        assert(vv.take(i as int) =~= vv);
    }
    out
}

/// The request URL for an endpoint under a base URL: the endpoint's path
/// parts follow the base's, without repeating the parts the base already
/// ends with; a base that does not parse as a URL is joined as text.
pub fn endpoint_url(base_url: &str, endpoint_path: &str) -> (r: String)
    ensures
        r@ == endpoint_url_spec(base_url@, endpoint_path@),
{
    if parse_url_text(base_url).is_err() {
        let base = trim_end_char(base_url, '/');
        return concat(base.as_str(), endpoint_path);
    }
    let segments = match url_path_segments(base_url) {
        Some(v) => nonempty_strings(v),
        None => Vec::new(),
    };
    proof {
        assert(strings_view(segments@) == base_url_parts(base_url@));
    }
    let path = joined_endpoint_path(&segments, endpoint_path);
    url_text_with_path(base_url, path.as_str())
}

/// Texts as character sequences.
pub open spec fn strings_view(v: Seq<String>) -> Seq<Seq<char>> {
    v.map_values(|s: String| s@)
}

/// Small declarative differences across OpenAI-compatible providers.
#[derive(Clone, Debug)]
pub struct CompatQuirks {
    /// Request fields the provider refuses; they are removed.
    pub unsupported_params: Vec<String>,
    /// Request fields the provider knows under another name, as
    /// (from, to) pairs applied in order.
    pub param_renames: Vec<(String, String)>,
    pub tool_args_may_be_object: bool,
    /// Ask for usage in the last stream chunk of a streaming request.
    pub inject_stream_usage: bool,
    /// The line that ends the provider's stream.
    pub stream_done_signal: String,
}

/// `m` without the keys in `keys`.
pub open spec fn without_keys(m: Map<Seq<char>, JsonV>, keys: Seq<Seq<char>>) -> Map<Seq<char>, JsonV>
    decreases keys.len(),
{
    if keys.len() == 0 {
        m
    } else {
        without_keys(m, keys.drop_last()).remove(keys.last())
    }
}

/// One rename: a present `from` is taken out, and its value kept under `to`
/// unless `to` is already there.
pub open spec fn rename_step(m: Map<Seq<char>, JsonV>, from: Seq<char>, to: Seq<char>) -> Map<Seq<char>, JsonV> {
    if m.contains_key(from) {
        let rest = m.remove(from);
        if rest.contains_key(to) {
            rest
        } else {
            rest.insert(to, m[from])
        }
    } else {
        m
    }
}

/// The renames applied in order.
pub open spec fn apply_renames(m: Map<Seq<char>, JsonV>, renames: Seq<(Seq<char>, Seq<char>)>) -> Map<Seq<char>, JsonV>
    decreases renames.len(),
{
    if renames.len() == 0 {
        m
    } else {
        rename_step(apply_renames(m, renames.drop_last()), renames.last().0, renames.last().1)
    }
}

/// A field value whose objects have distinct keys: the value itself, or
/// the items of an array.
pub open spec fn value_wf(v: JsonV) -> bool {
    &&& v is Object ==> keys_unique(v->Object_0)
    &&& v is Array ==> forall|i: int|
        0 <= i < v->Array_0.len() && (#[trigger] v->Array_0[i]) is Object ==> keys_unique(
            v->Array_0[i]->Object_0,
        )
}

/// Every value has distinct keys in its objects.
pub open spec fn values_wf(m: Map<Seq<char>, JsonV>) -> bool {
    forall|k: Seq<char>| #[trigger] m.contains_key(k) ==> value_wf(m[k])
}

/// Whether a request map asks for a stream.
pub open spec fn streams_true(m: Map<Seq<char>, JsonV>) -> bool {
    m.contains_key("stream"@) && m["stream"@] == JsonV::Bool(true)
}

/// The stream options of a request that asks for usage: those already
/// there when they are an object, with `include_usage` set to true.
pub open spec fn usage_options(m: Map<Seq<char>, JsonV>) -> Map<Seq<char>, JsonV> {
    let base = if m.contains_key("stream_options"@) && m["stream_options"@] is Object {
        obj_map(m["stream_options"@]->Object_0)
    } else {
        Map::empty()
    };
    base.insert("include_usage"@, JsonV::Bool(true))
}

/// The request map after removals and renames.
pub open spec fn quirk_fields(
    unsupported: Seq<Seq<char>>,
    renames: Seq<(Seq<char>, Seq<char>)>,
    fields: Seq<(Seq<char>, JsonV)>,
) -> Map<Seq<char>, JsonV> {
    apply_renames(without_keys(obj_map(fields), unsupported), renames)
}

/// Whether `after` is the fields `before` with the quirks applied: fields
/// removed and renamed, then, for a streaming request where usage is to be
/// injected, `stream_options.include_usage` set.
pub open spec fn quirk_result(
    unsupported: Seq<Seq<char>>,
    renames: Seq<(Seq<char>, Seq<char>)>,
    inject: bool,
    before: Seq<(Seq<char>, JsonV)>,
    after: Seq<(Seq<char>, JsonV)>,
) -> bool {
    let m = quirk_fields(unsupported, renames, before);
    let am = obj_map(after);
    &&& keys_unique(after)
    &&& if inject && streams_true(m) {
        &&& am.contains_key("stream_options"@)
        &&& am.remove("stream_options"@) == m.remove("stream_options"@)
        &&& am["stream_options"@] is Object
        &&& keys_unique(am["stream_options"@]->Object_0)
        &&& obj_map(am["stream_options"@]->Object_0) == usage_options(m)
    } else {
        am == m
    }
}

/// What applying quirks does to a request body: an object as
/// `quirk_result` says, anything else unchanged.
pub open spec fn quirks_applied(
    unsupported: Seq<Seq<char>>,
    renames: Seq<(Seq<char>, Seq<char>)>,
    inject: bool,
    before: JsonV,
    after: JsonV,
) -> bool {
    match before {
        JsonV::Object(fs) => after is Object && quirk_result(unsupported, renames, inject, fs, after->Object_0),
        _ => after == before,
    }
}

/// A request body whose objects have distinct keys, down to the values of
/// its fields.
pub open spec fn body_wf(body: JsonV) -> bool {
    body matches JsonV::Object(fs) ==> keys_unique(fs) && values_wf(obj_map(fs))
}

/// Quirks in mathematical form.
pub ghost struct QuirksV {
    pub unsupported_params: Seq<Seq<char>>,
    pub param_renames: Seq<(Seq<char>, Seq<char>)>,
    pub tool_args_may_be_object: bool,
    pub inject_stream_usage: bool,
    pub stream_done_signal: Seq<char>,
}

impl View for CompatQuirks {
    type V = QuirksV;

    open spec fn view(&self) -> QuirksV {
        QuirksV {
            unsupported_params: strings_view(self.unsupported_params@),
            param_renames: pairs_view(self.param_renames@),
            tool_args_may_be_object: self.tool_args_may_be_object,
            inject_stream_usage: self.inject_stream_usage,
            stream_done_signal: self.stream_done_signal@,
        }
    }
}

/// The quirks of a provider that needs none, ending its stream with
/// `data: [DONE]`.
pub open spec fn no_quirks() -> QuirksV {
    QuirksV {
        unsupported_params: Seq::empty(),
        param_renames: Seq::empty(),
        tool_args_may_be_object: false,
        inject_stream_usage: false,
        stream_done_signal: "data: [DONE]"@,
    }
}

/// What applying quirks in mathematical form does to a request body.
pub open spec fn applies_quirks(q: QuirksV, before: JsonV, after: JsonV) -> bool {
    quirks_applied(q.unsupported_params, q.param_renames, q.inject_stream_usage, before, after)
}

impl CompatQuirks {
    /// No quirks: nothing removed or renamed, no usage injected, and the
    /// stream ending with `data: [DONE]`.
    pub fn none() -> (r: CompatQuirks)
        ensures
            r.unsupported_params@.len() == 0,
            r.param_renames@.len() == 0,
            !r.tool_args_may_be_object,
            !r.inject_stream_usage,
            r.stream_done_signal@ == "data: [DONE]"@,
            r@ == no_quirks(),
    {
        let r = CompatQuirks {
            unsupported_params: Vec::new(),
            param_renames: Vec::new(),
            tool_args_may_be_object: false,
            inject_stream_usage: false,
            stream_done_signal: to_owned_string("data: [DONE]"),
        };
        proof {
            assert(r@.unsupported_params =~= Seq::empty());
            assert(r@.param_renames =~= Seq::empty());
        }
        r
    }

    fn apply_to_fields(&self, fields: &mut Vec<(String, JsonValue)>)
        requires
            keys_unique(fields_view(old(fields)@)),
            values_wf(obj_map(fields_view(old(fields)@))),
        ensures
            quirk_result(
                strings_view(self.unsupported_params@),
                pairs_view(self.param_renames@),
                self.inject_stream_usage,
                fields_view(old(fields)@),
                fields_view(final(fields)@),
            ),
            values_wf(obj_map(fields_view(final(fields)@))),
    {
        let ghost m0 = obj_map(fields_view(fields@));
        let ghost uns = strings_view(self.unsupported_params@);
        let ghost ren = pairs_view(self.param_renames@);
        let mut i: usize = 0;
        while i < self.unsupported_params.len()
            invariant
                0 <= i <= self.unsupported_params@.len(),
                uns == strings_view(self.unsupported_params@),
                keys_unique(fields_view(fields@)),
                obj_map(fields_view(fields@)) == without_keys(m0, uns.take(i as int)),
                values_wf(obj_map(fields_view(fields@))),
            decreases self.unsupported_params.len() - i,
        {
            proof {
                assert(uns.take(i + 1).drop_last() =~= uns.take(i as int));
            }
            obj_remove(fields, self.unsupported_params[i].as_str());
            i += 1;
        }
        proof {
            assert(uns.take(i as int) =~= uns);
        }
        let ghost m1 = obj_map(fields_view(fields@));
        let mut j: usize = 0;
        while j < self.param_renames.len()
            invariant
                0 <= j <= self.param_renames@.len(),
                ren == pairs_view(self.param_renames@),
                keys_unique(fields_view(fields@)),
                obj_map(fields_view(fields@)) == apply_renames(m1, ren.take(j as int)),
                values_wf(obj_map(fields_view(fields@))),
            decreases self.param_renames.len() - j,
        {
            proof {
                assert(ren.take(j + 1).drop_last() =~= ren.take(j as int));
            }
            let from = self.param_renames[j].0.as_str();
            let to = self.param_renames[j].1.as_str();
            let ghost before = obj_map(fields_view(fields@));
            proof {
                crate::json::lemma_lookup_cases(fields_view(fields@), from@);
            }
            match obj_remove(fields, from) {
                Some(value) => {
                    let ghost vv = value@;
                    assert(before.contains_key(from@) && before[from@] == vv);
                    if !obj_contains(fields, to) {
                        obj_insert(fields, to_owned_string(to), value);
                        proof {
                            assert(obj_map(fields_view(fields@)) =~= rename_step(before, from@, to@));
                        }
                    } else {
                        proof {
                            assert(obj_map(fields_view(fields@)) =~= rename_step(before, from@, to@));
                        }
                    }
                },
                None => {
                    proof {
                        assert(!before.contains_key(from@));
                        assert(obj_map(fields_view(fields@)) =~= rename_step(before, from@, to@));
                    }
                },
            }
            proof {
                assert(ren.take(j + 1).last() == (from@, to@));
            }
            j += 1;
        }
        proof {
            assert(ren.take(j as int) =~= ren);
        }
        let ghost m = obj_map(fields_view(fields@));
        proof {
            crate::json::lemma_lookup_cases(fields_view(fields@), "stream"@);
        }
        if self.inject_stream_usage {
            let streaming = match obj_get(fields, "stream") {
                Some(v) => match v.as_bool() {
                    Some(b) => b,
                    None => false,
                },
                None => false,
            };
            assert(streaming == streams_true(m));
            if streaming {
                let ghost m2 = obj_map(fields_view(fields@));
                proof {
                    crate::json::lemma_lookup_cases(fields_view(fields@), "stream_options"@);
                    assert(m2.contains_key("stream_options"@) ==> m2["stream_options"@] is Object ==> keys_unique(
                        m2["stream_options"@]->Object_0,
                    ));
                }
                let existing = obj_remove(fields, "stream_options");
                let mut inner: Vec<(String, JsonValue)> = Vec::new();
                proof {
                    assert(fields_view(inner@) =~= Seq::empty());
                    assert(obj_map(fields_view(inner@)) =~= Map::empty());
                }
                match existing {
                    Some(JsonValue::Object(fs)) => {
                        proof {
                            assert(fields_view(fs@) =~= json_view(JsonValue::Object(fs))->Object_0);
                        }
                        inner = fs;
                    },
                    _ => {},
                }
                proof {
                    assert(m2.contains_key("stream_options"@) && m2["stream_options"@] is Object ==> fields_view(inner@)
                        == m2["stream_options"@]->Object_0);
                }
                obj_insert(&mut inner, to_owned_string("include_usage"), JsonValue::Bool(true));
                let ghost inner_v = fields_view(inner@);
                obj_insert(fields, to_owned_string("stream_options"), JsonValue::Object(inner));
                proof {
                    let am = obj_map(fields_view(fields@));
                    assert(am.remove("stream_options"@) =~= m2.remove("stream_options"@));
                    assert(am["stream_options"@]->Object_0 =~= inner_v);
                    assert forall|k: Seq<char>| #[trigger] am.contains_key(k) implies value_wf(am[k]) by {
                        if k != "stream_options"@ {
                            assert(m2.contains_key(k));
                        }
                    }
                }
            }
        }
    }

    /// Applies the quirks to a serialized request body: an object loses
    /// the unsupported fields, has its renames applied in order, and, for a
    /// streaming request with usage to inject, gets
    /// `stream_options.include_usage: true`; any other value is left alone.
    pub fn apply_to_request(&self, body: &mut JsonValue)
        requires
            body_wf(old(body)@),
        ensures
            quirks_applied(
                strings_view(self.unsupported_params@),
                pairs_view(self.param_renames@),
                self.inject_stream_usage,
                old(body)@,
                final(body)@,
            ),
            body_wf(final(body)@),
    {
        let mut taken = JsonValue::Null;
        std::mem::swap(&mut taken, body);
        match taken {
            JsonValue::Object(mut fields) => {
                proof {
                    assert(fields_view(fields@) =~= json_view(JsonValue::Object(fields))->Object_0);
                }
                self.apply_to_fields(&mut fields);
                let ghost fv = fields_view(fields@);
                *body = JsonValue::Object(fields);
                proof {
                    assert(json_view(*body)->Object_0 =~= fv);
                }
            },
            other => {
                *body = other;
            },
        }
    }
}

/// A done signal without a leading `data:` and the blanks after it.
pub open spec fn normalized_signal(done: Seq<char>) -> Seq<char> {
    if has_prefix(done, "data:"@) {
        trim_start_spec(done.subrange("data:"@.len() as int, done.len() as int))
    } else {
        done
    }
}

/// An SSE line that carries no chunk: empty, the done signal, a comment,
/// or an `event:`, `id:` or `retry:` field.
pub open spec fn is_control_line(t: Seq<char>, done: Seq<char>) -> bool {
    ||| t.len() == 0
    ||| t == done
    ||| t == normalized_signal(done)
    ||| has_prefix(t, ":"@)
    ||| has_prefix(t, "event:"@)
    ||| has_prefix(t, "id:"@)
    ||| has_prefix(t, "retry:"@)
}

/// The JSON payload an SSE line carries, if any: the text after `data:`
/// without leading blanks, unless it is empty or the done signal.
pub open spec fn stream_payload_spec(raw: Seq<char>, signal: Seq<char>) -> Option<Seq<char>> {
    let t = trim_spec(raw);
    let done = trim_spec(signal);
    if is_control_line(t, done) || !has_prefix(t, "data:"@) {
        None
    } else {
        let p = trim_start_spec(t.subrange("data:"@.len() as int, t.len() as int));
        if p.len() == 0 || p == done || p == normalized_signal(done) {
            None
        } else {
            Some(p)
        }
    }
}

/// The JSON payload of one SSE line of a chat stream whose end is marked
/// by `done_signal`; none for control lines, lines that are not `data:`,
/// and the done signal in either of its forms.
pub fn stream_data_payload(raw: &str, done_signal: &str) -> (r: Option<String>)
    ensures
        opt_view(r) == stream_payload_spec(raw@, done_signal@),
{
    let trimmed = trim(raw);
    let done = trim(done_signal);
    let normalized = match strip_prefix(done.as_str(), "data:") {
        Some(rest) => trim_start(rest.as_str()),
        None => to_owned_string(done.as_str()),
    };
    let t = trimmed.as_str();
    if t.unicode_len() == 0 || str_eq(t, done.as_str()) || str_eq(t, normalized.as_str()) || starts_with(t, ":")
        || starts_with(t, "event:") || starts_with(t, "id:") || starts_with(t, "retry:") {
        return None;
    }
    match strip_prefix(t, "data:") {
        None => None,
        Some(line) => {
            let payload = trim_start(line.as_str());
            if payload.unicode_len() == 0 || str_eq(payload.as_str(), done.as_str()) || str_eq(
                payload.as_str(),
                normalized.as_str(),
            ) {
                None
            } else {
                Some(payload)
            }
        },
    }
}

/// `after` is `before` without the field `key`, where `before` is an
/// object; anything else is left alone.
pub open spec fn field_removed(before: JsonV, after: JsonV, key: Seq<char>) -> bool {
    match before {
        JsonV::Object(fs) => {
            &&& after is Object
            &&& keys_unique(after->Object_0)
            &&& obj_map(after->Object_0) == obj_map(fs).remove(key)
        },
        _ => after == before,
    }
}

/// Removes the field `key` from an object body.
pub fn remove_field(body: &mut JsonValue, key: &str)
    requires
        old(body)@ is Object ==> keys_unique(old(body)@->Object_0),
    ensures
        field_removed(old(body)@, final(body)@, key@),
        body_wf(old(body)@) ==> body_wf(final(body)@),
{
    let mut taken = JsonValue::Null;
    std::mem::swap(&mut taken, body);
    match taken {
        JsonValue::Object(mut fields) => {
            proof {
                assert(fields_view(fields@) =~= json_view(JsonValue::Object(fields))->Object_0);
            }
            obj_remove(&mut fields, key);
            let ghost fv = fields_view(fields@);
            *body = JsonValue::Object(fields);
            proof {
                assert(json_view(*body)->Object_0 =~= fv);
            }
        },
        other => {
            *body = other;
        },
    }
}

/// `after` is `before` with the field `key` set to `value` where it was
/// absent, where `before` is an object; anything else is left alone.
pub open spec fn field_defaulted(before: JsonV, after: JsonV, key: Seq<char>, value: JsonV) -> bool {
    match before {
        JsonV::Object(fs) => {
            &&& after is Object
            &&& keys_unique(after->Object_0)
            &&& obj_map(after->Object_0) == if obj_map(fs).contains_key(key) {
                obj_map(fs)
            } else {
                obj_map(fs).insert(key, value)
            }
        },
        _ => after == before,
    }
}

/// Sets the field `key` of an object body to `value` unless it is there.
pub fn insert_field_if_absent(body: &mut JsonValue, key: &str, value: JsonValue)
    requires
        body_wf(old(body)@),
        value_wf(value@),
    ensures
        field_defaulted(old(body)@, final(body)@, key@, value@),
        body_wf(final(body)@),
{
    let mut taken = JsonValue::Null;
    std::mem::swap(&mut taken, body);
    match taken {
        JsonValue::Object(mut fields) => {
            proof {
                assert(fields_view(fields@) =~= json_view(JsonValue::Object(fields))->Object_0);
            }
            let ghost before = obj_map(fields_view(fields@));
            if !obj_contains(&fields, key) {
                obj_insert(&mut fields, to_owned_string(key), value);
                proof {
                    let am = obj_map(fields_view(fields@));
                    assert forall|k: Seq<char>| #[trigger] am.contains_key(k) implies value_wf(am[k]) by {
                        if k != key@ {
                            assert(before.contains_key(k));
                        }
                    }
                }
            }
            let ghost fv = fields_view(fields@);
            *body = JsonValue::Object(fields);
            proof {
                assert(json_view(*body)->Object_0 =~= fv);
            }
        },
        other => {
            *body = other;
        },
    }
}

/// A provider response body: JSON, or bytes that are not.
#[derive(Debug)]
pub enum HttpResponseBody {
    Json(JsonValue),
    Binary,
}

/// Whether a content type mentions JSON.
pub open spec fn mentions_json(content_type: Option<Seq<char>>) -> bool {
    match content_type {
        Some(t) => crate::text::contains_seq(t, "json"@),
        None => false,
    }
}

/// Whether `r` is what a provider response body becomes: parsed as JSON,
/// and where the content type says JSON a body that does not parse is an
/// error, while otherwise it is kept as binary.
pub open spec fn response_body_outcome(
    content_type: Option<Seq<char>>,
    body: Seq<u8>,
    r: Result<HttpResponseBody, GatewayError>,
) -> bool {
    match crate::json::json_parse_bytes(body) {
        Ok(v) => r matches Ok(HttpResponseBody::Json(x)) && x@ == v,
        Err(m) => if mentions_json(content_type) {
            r matches Err(GatewayError::Transform(x)) && x@ == m
        } else {
            r matches Ok(HttpResponseBody::Binary)
        },
    }
}

/// Reads a provider response body by its content type.
pub fn parse_http_response_body(content_type: Option<&str>, body: &[u8]) -> (r: Result<HttpResponseBody, GatewayError>)
    ensures
        response_body_outcome(
            match content_type {
                Some(t) => Some(t@),
                None => None,
            },
            body@,
            r,
        ),
{
    let expects_json = match content_type {
        Some(t) => crate::text::find(t, "json").is_some(),
        None => false,
    };
    let parsed = crate::json::parse_json_slice(body);
    let r = match parsed {
        Ok(v) => Ok(HttpResponseBody::Json(v)),
        Err(m) => if expects_json {
            Err(GatewayError::Transform(m))
        } else {
            Ok(HttpResponseBody::Binary)
        },
    };
    proof {
        let ct = match content_type {
            Some(t) => Some(t@),
            None => None,
        };
        assert(mentions_json(ct) == expects_json);
    }
    r
}

/// A line never yields the done signal, in either of its forms, nor an
/// empty payload.
pub proof fn law_done_signal_never_forwarded(raw: Seq<char>, signal: Seq<char>)
    ensures
        stream_payload_spec(raw, signal) matches Some(p) ==> {
            &&& p.len() > 0
            &&& p != trim_spec(signal)
            &&& p != normalized_signal(trim_spec(signal))
        },
{
}

proof fn lemma_without_keys_keeps(m: Map<Seq<char>, JsonV>, keys: Seq<Seq<char>>, k: Seq<char>)
    requires
        !keys.contains(k),
    ensures
        without_keys(m, keys).contains_key(k) == m.contains_key(k),
        m.contains_key(k) ==> without_keys(m, keys)[k] == m[k],
    decreases keys.len(),
{
    if keys.len() > 0 {
        assert(!keys.drop_last().contains(k)) by {
            if keys.drop_last().contains(k) {
                let i = choose|i: int| 0 <= i < keys.drop_last().len() && keys.drop_last()[i] == k;
                assert(keys[i] == k);
            }
        }
        assert(keys.last() != k) by {
            if keys.last() == k {
                assert(keys[keys.len() - 1] == k);
            }
        }
        lemma_without_keys_keeps(m, keys.drop_last(), k);
    }
}

proof fn lemma_renames_keep(m: Map<Seq<char>, JsonV>, renames: Seq<(Seq<char>, Seq<char>)>, k: Seq<char>)
    requires
        forall|i: int| 0 <= i < renames.len() ==> (#[trigger] renames[i]).0 != k && renames[i].1 != k,
    ensures
        apply_renames(m, renames).contains_key(k) == m.contains_key(k),
        m.contains_key(k) ==> apply_renames(m, renames)[k] == m[k],
    decreases renames.len(),
{
    if renames.len() > 0 {
        assert(renames.last() == renames[renames.len() - 1]);
        assert forall|i: int| 0 <= i < renames.drop_last().len() implies (#[trigger] renames.drop_last()[i]).0
            != k && renames.drop_last()[i].1 != k by {
            assert(renames.drop_last()[i] == renames[i]);
        }
        lemma_renames_keep(m, renames.drop_last(), k);
    }
}

/// Quirks leave alone every field that they neither remove nor rename.
pub proof fn law_quirks_keep_other_fields(
    unsupported: Seq<Seq<char>>,
    renames: Seq<(Seq<char>, Seq<char>)>,
    fields: Seq<(Seq<char>, JsonV)>,
    k: Seq<char>,
)
    requires
        !unsupported.contains(k),
        forall|i: int| 0 <= i < renames.len() ==> (#[trigger] renames[i]).0 != k && renames[i].1 != k,
    ensures
        quirk_fields(unsupported, renames, fields).contains_key(k) == obj_map(fields).contains_key(k),
        obj_map(fields).contains_key(k) ==> quirk_fields(unsupported, renames, fields)[k] == obj_map(fields)[k],
{
    lemma_without_keys_keeps(obj_map(fields), unsupported, k);
    lemma_renames_keep(without_keys(obj_map(fields), unsupported), renames, k);
}

} // verus!
