//! Reading provider streams: SSE byte chunks into lines, and AWS
//! EventStream messages into normalized JSON lines or errors.
use vstd::prelude::*;

use aws_smithy_eventstream::frame::{DecodedFrame, MessageFrameDecoder};
use aws_smithy_eventstream::smithy::parse_response_headers;

use crate::auth::GatewayError;
use crate::json::{field_lookup, json_view, json_parse_bytes, json_text, parse_json_slice, to_json_text, JsonV, JsonValue};
use crate::text::{
    concat, decode_utf8_lossy, str_eq, string_of_range, to_owned_string, trim, trim_spec, utf8_lossy,
    chars_of,
};

verus! {

/// A line without the carriage return that ended it.
pub open spec fn strip_cr(l: Seq<char>) -> Seq<char> {
    if l.len() > 0 && l.last() == '\r' {
        l.drop_last()
    } else {
        l
    }
}

/// The non-empty completed lines of a text and the line still open.
pub open spec fn lines_state(t: Seq<char>) -> (Seq<Seq<char>>, Seq<char>)
    decreases t.len(),
{
    if t.len() == 0 {
        (Seq::empty(), Seq::empty())
    } else {
        let (ls, cur) = lines_state(t.drop_last());
        if t.last() == '\n' {
            let l = strip_cr(cur);
            (if l.len() > 0 {
                ls.push(l)
            } else {
                ls
            }, Seq::empty())
        } else {
            (ls, cur.push(t.last()))
        }
    }
}

/// The non-empty lines of a text, split at `\n` or `\r\n`; a last line
/// needs no line ending.
pub open spec fn text_lines(t: Seq<char>) -> Seq<Seq<char>> {
    let (ls, cur) = lines_state(t);
    if cur.len() > 0 {
        ls.push(cur)
    } else {
        ls
    }
}

/// Texts as character sequences.
pub open spec fn lines_view(v: Seq<String>) -> Seq<Seq<char>> {
    v.map_values(|s: String| s@)
}

/// The non-empty lines of a text.
pub fn nonempty_lines(text: &str) -> (r: Vec<String>)
    ensures
        lines_view(r@) == text_lines(text@),
{
    let cs = chars_of(text);
    let mut out: Vec<String> = Vec::new();
    let mut start: usize = 0;
    let mut i: usize = 0;
    while i < cs.len()
        invariant
            0 <= start <= i <= cs@.len(),
            cs@ == text@,
            lines_state(cs@.take(i as int)) == (lines_view(out@), cs@.subrange(start as int, i as int)),
        decreases cs.len() - i,
    {
        proof {
            assert(cs@.take(i + 1).drop_last() =~= cs@.take(i as int));
            assert(cs@.take(i + 1).last() == cs@[i as int]);
        }
        if cs[i] == '\n' {
            let mut end = i;
            if end > start && cs[end - 1] == '\r' {
                end = end - 1;
            }
            proof {
                assert(strip_cr(cs@.subrange(start as int, i as int)) =~= cs@.subrange(start as int, end as int));
            }
            if end > start {
                let ghost before = out@;
                out.push(string_of_range(&cs, start, end));
                proof {
                    assert(lines_view(out@) =~= lines_view(before).push(cs@.subrange(start as int, end as int)));
                }
            }
            start = i + 1;
            proof {
                assert(cs@.subrange(start as int, i + 1) =~= Seq::<char>::empty());
            }
        } else {
            proof {
                assert(cs@.subrange(start as int, i + 1) =~= cs@.subrange(start as int, i as int).push(cs@[i as int]));
            }
        }
        i += 1;
    }
    proof {
        assert(cs@.take(i as int) =~= cs@);
    }
    if i > start {
        let ghost before = out@;
        out.push(string_of_range(&cs, start, i));
        proof {
            assert(lines_view(out@) =~= lines_view(before).push(cs@.subrange(start as int, i as int)));
        }
    }
    out
}

/// The index of the last newline byte, if any.
pub open spec fn last_newline(s: Seq<u8>) -> Option<int>
    decreases s.len(),
{
    if s.len() == 0 {
        None
    } else if s.last() == 10 {
        Some(s.len() - 1)
    } else {
        last_newline(s.drop_last())
    }
}

/// Whether no byte is a newline.
pub open spec fn no_newline(s: Seq<u8>) -> bool {
    forall|i: int| 0 <= i < s.len() ==> #[trigger] s[i] != 10
}

proof fn lemma_last_newline(s: Seq<u8>)
    ensures
        last_newline(s) matches Some(k) ==> 0 <= k < s.len() && s[k] == 10 && no_newline(s.skip(k + 1)),
        last_newline(s) is None ==> no_newline(s),
    decreases s.len(),
{
    if s.len() > 0 {
        lemma_last_newline(s.drop_last());
        if s.last() != 10 {
            if let Some(k) = last_newline(s.drop_last()) {
                assert forall|i: int| 0 <= i < s.skip(k + 1).len() implies #[trigger] s.skip(k + 1)[i] != 10 by {
                    if k + 1 + i < s.len() - 1 {
                        assert(s.skip(k + 1)[i] == s.drop_last().skip(k + 1)[i]);
                    }
                }
            } else {
                assert forall|i: int| 0 <= i < s.len() implies #[trigger] s[i] != 10 by {
                    if i < s.len() - 1 {
                        assert(s[i] == s.drop_last()[i]);
                    }
                }
            }
        } else {
            assert(s.skip(s.len() as int) =~= Seq::<u8>::empty());
        }
    }
}

/// The partial line left once `chunk` arrives with `pending` buffered: the
/// bytes after the last newline.
pub open spec fn pending_after(pending: Seq<u8>, chunk: Seq<u8>) -> Seq<u8> {
    let all = pending + chunk;
    match last_newline(all) {
        Some(k) => all.skip(k + 1),
        None => all,
    }
}

proof fn lemma_last_newline_concat(s: Seq<u8>, t: Seq<u8>)
    ensures
        last_newline(s + t) == match last_newline(t) {
            Some(j) => Some(s.len() + j),
            None => last_newline(s),
        },
    decreases t.len(),
{
    if t.len() == 0 {
        assert(s + t =~= s);
    } else {
        assert((s + t).drop_last() =~= s + t.drop_last());
        assert((s + t).last() == t.last());
        lemma_last_newline_concat(s, t.drop_last());
    }
}

proof fn lemma_no_newline_none(s: Seq<u8>)
    requires
        no_newline(s),
    ensures
        last_newline(s) is None,
    decreases s.len(),
{
    if s.len() > 0 {
        assert(s.last() == s[s.len() - 1]);
        assert forall|i: int| 0 <= i < s.drop_last().len() implies #[trigger] s.drop_last()[i] != 10 by {
            assert(s.drop_last()[i] == s[i]);
        }
        lemma_no_newline_none(s.drop_last());
    }
}

/// Splitting a byte stream into chunks differently leaves the same partial
/// line: two chunks in turn leave what their concatenation leaves.
pub proof fn law_sse_partial_line_independent_of_chunking(pending: Seq<u8>, a: Seq<u8>, b: Seq<u8>)
    ensures
        pending_after(pending_after(pending, a), b) == pending_after(pending, a + b),
{
    let x = pending + a;
    let q = pending_after(pending, a);
    assert(pending + (a + b) =~= x + b);
    lemma_last_newline_concat(q, b);
    lemma_last_newline_concat(x, b);
    lemma_last_newline(x);
    lemma_last_newline(b);
    match last_newline(b) {
        Some(j) => {
            assert((q + b).skip(q.len() + j + 1) =~= b.skip(j + 1));
            assert((x + b).skip(x.len() + j + 1) =~= b.skip(j + 1));
        },
        None => {
            match last_newline(x) {
                Some(k) => {
                    assert(q == x.skip(k + 1));
                    lemma_no_newline_none(q);
                    assert((x + b).skip(k + 1) =~= q + b);
                },
                None => {
                    assert(q == x);
                    lemma_no_newline_none(q);
                },
            }
        },
    }
}

/// Splits an SSE byte stream into its non-empty lines, keeping a partial
/// line until its end arrives; a transport failure ends it without the
/// partial line.
#[derive(Debug)]
pub struct SseLineReader {
    buffer: Vec<u8>,
    terminated: bool,
}

impl SseLineReader {
    /// The bytes of the line not yet complete.
    pub closed spec fn pending(&self) -> Seq<u8> {
        self.buffer@
    }

    /// Whether the reader has stopped.
    pub closed spec fn stopped(&self) -> bool {
        self.terminated
    }

    /// A reader with nothing buffered.
    pub fn new() -> (r: Self)
        ensures
            r.pending() == Seq::<u8>::empty(),
            !r.stopped(),
    {
        SseLineReader { buffer: Vec::new(), terminated: false }
    }

    /// Takes a chunk of bytes and gives the lines it completes: those of
    /// the bytes up to the last newline, decoded leniently as UTF-8; the
    /// bytes after it wait for the next chunk. A stopped reader gives
    /// nothing.
    pub fn push_chunk(&mut self, chunk: &[u8]) -> (r: Vec<String>)
        ensures
            old(self).stopped() ==> r@.len() == 0 && final(self).pending() == old(self).pending()
                && final(self).stopped(),
            !old(self).stopped() ==> {
                let all = old(self).pending() + chunk@;
                &&& !final(self).stopped()
                &&& final(self).pending() == pending_after(old(self).pending(), chunk@)
                &&& no_newline(final(self).pending())
                &&& match last_newline(all) {
                    Some(k) => lines_view(r@) == text_lines(utf8_lossy(all.take(k + 1)))
                        && final(self).pending() == all.skip(k + 1),
                    None => r@.len() == 0 && final(self).pending() == all,
                }
            },
    {
        if self.terminated {
            return Vec::new();
        }
        let ghost before = self.buffer@;
        let mut j: usize = 0;
        while j < chunk.len()
            invariant
                0 <= j <= chunk@.len(),
                self.buffer@ == before + chunk@.take(j as int),
                !self.terminated,
            decreases chunk.len() - j,
        {
            self.buffer.push(chunk[j]);
            proof {
                assert(chunk@.take(j + 1) =~= chunk@.take(j as int).push(chunk@[j as int]));
            }
            j += 1;
        }
        let ghost all = self.buffer@;
        proof {
            assert(chunk@.take(j as int) =~= chunk@);
            lemma_last_newline(all);
        }
        let mut k: usize = self.buffer.len();
        proof {
            assert(all.take(k as int) =~= all);
        }
        while k > 0 && self.buffer[k - 1] != 10
            invariant
                0 <= k <= self.buffer@.len(),
                self.buffer@ == all,
                last_newline(all) == last_newline(all.take(k as int)),
            decreases k,
        {
            proof {
                assert(all.take(k as int).drop_last() =~= all.take(k - 1));
            }
            k -= 1;
        }
        if k == 0 {
            proof {
                assert(all.take(0) =~= Seq::<u8>::empty());
            }
            return Vec::new();
        }
        proof {
            assert(all.take(k as int).last() == 10);
            assert(all.take(k as int).len() == k);
        }
        let mut complete: Vec<u8> = Vec::new();
        let mut rest: Vec<u8> = Vec::new();
        let mut m: usize = 0;
        while m < self.buffer.len()
            invariant
                0 <= m <= all.len(),
                0 < k <= all.len(),
                self.buffer@ == all,
                complete@ == all.take(if m < k { m as int } else { k as int }),
                rest@ == if m < k { Seq::<u8>::empty() } else { all.subrange(k as int, m as int) },
            decreases self.buffer.len() - m,
        {
            if m < k {
                complete.push(self.buffer[m]);
                proof {
                    assert(all.take(m + 1) =~= all.take(m as int).push(all[m as int]));
                }
            } else {
                rest.push(self.buffer[m]);
                proof {
                    assert(all.subrange(k as int, m + 1) =~= all.subrange(k as int, m as int).push(all[m as int]));
                }
            }
            m += 1;
        }
        proof {
            assert(rest@ =~= all.skip(k as int));
        }
        self.buffer = rest;
        let text = decode_utf8_lossy(complete.as_slice());
        nonempty_lines(text.as_str())
    }

    /// The stream ended: whatever line is still open is complete.
    pub fn finish(&mut self) -> (r: Vec<String>)
        ensures
            old(self).stopped() ==> r@.len() == 0 && final(self).stopped(),
            !old(self).stopped() ==> {
                let all = old(self).pending().push(10);
                &&& lines_view(r@) == text_lines(utf8_lossy(all))
                &&& final(self).pending() == Seq::<u8>::empty()
            },
    {
        let ghost before = self.buffer@;
        let newline: Vec<u8> = vec![10u8];
        let r = self.push_chunk(newline.as_slice());
        proof {
            let all = before + newline@;
            assert(all =~= before.push(10));
            if !old(self).stopped() {
                assert(last_newline(all) == Some(all.len() - 1));
                assert(all.take(all.len() as int) =~= all);
                assert(all.skip(all.len() as int) =~= Seq::<u8>::empty());
            }
        }
        r
    }

    /// The transport failed: the partial line is dropped and nothing more
    /// is read.
    pub fn fail(&mut self)
        ensures
            final(self).stopped(),
            final(self).pending() == Seq::<u8>::empty(),
    {
        self.buffer = Vec::new();
        self.terminated = true;
    }
}

/// The detail a JSON exception payload gives: its `message` text, else its
/// `Message` text, else the payload itself written as JSON unless it is
/// null.
pub open spec fn json_exception_detail(v: JsonV) -> Option<Seq<char>> {
    let lower = match v {
        JsonV::Object(fs) => match field_lookup(fs, "message"@) {
            Some(JsonV::Str(m)) => Some(m),
            _ => None,
        },
        _ => None,
    };
    let upper = match v {
        JsonV::Object(fs) => match field_lookup(fs, "Message"@) {
            Some(JsonV::Str(m)) => Some(m),
            _ => None,
        },
        _ => None,
    };
    if lower is Some {
        lower
    } else if upper is Some {
        upper
    } else if v != JsonV::Null {
        Some(json_text(v))
    } else {
        None
    }
}

/// The detail of an exception payload: what its JSON gives, or else its
/// text without surrounding blanks, unless that is empty.
pub open spec fn exception_detail(payload: Seq<u8>) -> Option<Seq<char>> {
    let from_json = match json_parse_bytes(payload) {
        Ok(v) => json_exception_detail(v),
        Err(_) => None,
    };
    if from_json is Some {
        from_json
    } else if trim_spec(utf8_lossy(payload)).len() > 0 {
        Some(trim_spec(utf8_lossy(payload)))
    } else {
        None
    }
}

/// The message for an exception frame of type `exception_type`.
pub open spec fn exception_message_spec(exception_type: Seq<char>, payload: Seq<u8>) -> Seq<char> {
    match exception_detail(payload) {
        Some(d) => "aws event stream exception "@ + exception_type + ": "@ + d,
        None => "aws event stream exception "@ + exception_type,
    }
}

fn json_detail(v: &JsonValue) -> (r: Option<String>)
    ensures
        opt_text(r) == json_exception_detail(v@),
{
    if let JsonValue::Object(fs) = v {
        proof {
            assert(crate::json::fields_view(fs@) =~= v@->Object_0);
        }
        match crate::json::obj_get(fs, "message") {
            Some(JsonValue::Str(m)) => {
                return Some(to_owned_string(m.as_str()));
            },
            _ => {},
        }
        match crate::json::obj_get(fs, "Message") {
            Some(JsonValue::Str(m)) => {
                return Some(to_owned_string(m.as_str()));
            },
            _ => {},
        }
    }
    match v {
        JsonValue::Null => None,
        _ => Some(to_json_text(v)),
    }
}

/// Optional text as an optional character sequence.
pub open spec fn opt_text(o: Option<String>) -> Option<Seq<char>> {
    match o {
        Some(s) => Some(s@),
        None => None,
    }
}

/// The message for an AWS EventStream exception frame: the type, and the
/// detail its payload gives where it gives one.
pub fn build_aws_event_stream_exception_message(exception_type: &str, payload: &[u8]) -> (r: String)
    ensures
        r@ == exception_message_spec(exception_type@, payload@),
{
    let from_json = match parse_json_slice(payload) {
        Ok(v) => json_detail(&v),
        Err(_) => None,
    };
    let detail = match from_json {
        Some(d) => Some(d),
        None => {
            let text = decode_utf8_lossy(payload);
            let trimmed = trim(text.as_str());
            if trimmed.unicode_len() > 0 {
                Some(trimmed)
            } else {
                None
            }
        },
    };
    let head = concat("aws event stream exception ", exception_type);
    match detail {
        Some(d) => {
            let with_colon = concat(head.as_str(), ": ");
            concat(with_colon.as_str(), d.as_str())
        },
        None => head,
    }
}

/// The JSON line an event frame becomes: its type and its payload, null
/// where the payload is empty.
pub open spec fn event_line(smithy_type: Seq<char>, payload: JsonV) -> Seq<char> {
    json_text(JsonV::Object(seq![("type"@, JsonV::Str(smithy_type)), ("payload"@, payload)]))
}

/// Parsed headers as character sequences.
pub open spec fn headers_view(h: Result<(String, String), String>) -> Result<(Seq<char>, Seq<char>), Seq<char>> {
    match h {
        Ok((a, b)) => Ok((a@, b@)),
        Err(e) => Err(e@),
    }
}

/// Whether `r` is what an AWS EventStream message with these headers (its
/// message type and event or exception type, or the error of reading them)
/// and payload becomes: an event its JSON line, an exception a stream
/// error, and anything else an error.
pub open spec fn normalized_view(
    headers: Result<(Seq<char>, Seq<char>), Seq<char>>,
    payload: Seq<u8>,
    r: Result<String, GatewayError>,
) -> bool {
    match headers {
        Err(e) => r matches Err(GatewayError::Stream(m)) && m@ == "failed to parse aws event stream headers: "@ + e,
        Ok((message_type, smithy_type)) => if message_type == "event"@ {
            if payload.len() == 0 {
                r matches Ok(l) && l@ == event_line(smithy_type, JsonV::Null)
            } else {
                match json_parse_bytes(payload) {
                    Ok(v) => r matches Ok(l) && l@ == event_line(smithy_type, v),
                    Err(m) => r matches Err(GatewayError::Transform(x)) && x@ == m,
                }
            }
        } else if message_type == "exception"@ {
            r matches Err(GatewayError::Stream(m)) && m@ == exception_message_spec(smithy_type, payload)
        } else {
            r matches Err(GatewayError::Stream(m)) && m@ == "unsupported aws event stream message type: "@
                + message_type
        },
    }
}

/// Whether `r` is what an AWS EventStream message with these headers and
/// payload becomes.
pub open spec fn normalized_message(
    headers: Result<(String, String), String>,
    payload: Seq<u8>,
    r: Result<String, GatewayError>,
) -> bool {
    normalized_view(headers_view(headers), payload, r)
}

/// Turns one decoded AWS EventStream message, given by its parsed headers
/// (message type and event or exception type) and its payload, into a JSON
/// line of its type and payload, or the error it stands for.
pub fn normalize_aws_event_stream_message(headers: Result<(String, String), String>, payload: &[u8]) -> (r: Result<
    String,
    GatewayError,
>)
    ensures
        normalized_message(headers, payload@, r),
{
    match headers {
        Err(e) => Err(GatewayError::Stream(concat("failed to parse aws event stream headers: ", e.as_str()))),
        Ok((message_type, smithy_type)) => {
            if str_eq(message_type.as_str(), "event") {
                let value = if payload.len() == 0 {
                    JsonValue::Null
                } else {
                    match parse_json_slice(payload) {
                        Ok(v) => v,
                        Err(m) => {
                            return Err(GatewayError::Transform(m));
                        },
                    }
                };
                let ghost pv = value@;
                let ghost st = smithy_type@;
                let type_key = to_owned_string("type");
                let payload_key = to_owned_string("payload");
                let fields = vec![(type_key, JsonValue::Str(smithy_type)), (payload_key, value)];
                let line = JsonValue::Object(fields);
                proof {
                    let want = seq![("type"@, JsonV::Str(st)), ("payload"@, pv)];
                    let got = line@->Object_0;
                    assert(got.len() == 2);
                    assert(got[0] == (fields@[0].0@, json_view(fields@[0].1)));
                    assert(got[1] == (fields@[1].0@, json_view(fields@[1].1)));
                    assert(got =~= want);
                }
                Ok(to_json_text(&line))
            } else if str_eq(message_type.as_str(), "exception") {
                Err(
                    GatewayError::Stream(
                        build_aws_event_stream_exception_message(smithy_type.as_str(), payload),
                    ),
                )
            } else {
                Err(
                    GatewayError::Stream(
                        concat("unsupported aws event stream message type: ", message_type.as_str()),
                    ),
                )
            }
        },
    }
}

/// The bookkeeping of the AWS EventStream reader around its frame decoder:
/// whether a frame is partly read, and whether the reader has stopped.
#[derive(Debug)]
pub struct AwsEventStreamReaderState {
    pub pending_frame: bool,
    pub terminated: bool,
}

/// The error for a stream that ends inside a frame.
pub open spec fn incomplete_frame_message() -> Seq<char> {
    "aws event stream ended with an incomplete frame"@
}

impl AwsEventStreamReaderState {
    /// Nothing read yet.
    pub fn new() -> (r: Self)
        ensures
            !r.pending_frame,
            !r.terminated,
    {
        AwsEventStreamReaderState { pending_frame: false, terminated: false }
    }

    /// The decoder needs more bytes; a frame is pending where bytes are
    /// buffered.
    pub fn on_incomplete(&mut self, buffered_len: usize)
        ensures
            final(self).pending_frame == (buffered_len > 0),
            final(self).terminated == old(self).terminated,
    {
        self.pending_frame = buffered_len > 0;
    }

    /// A frame was decoded and normalized: its line is passed on, with a
    /// frame pending where bytes are left; its error stops the reader.
    pub fn on_frame(&mut self, normalized: Result<String, GatewayError>, bytes_left: bool) -> (r: Result<
        String,
        GatewayError,
    >)
        ensures
            r == normalized,
            normalized is Ok ==> final(self).pending_frame == bytes_left && final(self).terminated
                == old(self).terminated,
            normalized is Err ==> !final(self).pending_frame && final(self).terminated,
    {
        match normalized {
            Ok(line) => {
                self.pending_frame = bytes_left;
                Ok(line)
            },
            Err(e) => {
                self.pending_frame = false;
                self.terminated = true;
                Err(e)
            },
        }
    }

    /// The decoder refused the bytes: the reader stops with a stream error.
    pub fn on_decode_error(&mut self, error: &str) -> (r: GatewayError)
        ensures
            r matches GatewayError::Stream(m) && m@ == "failed to decode aws event stream frame: "@ + error@,
            !final(self).pending_frame,
            final(self).terminated,
    {
        self.pending_frame = false;
        self.terminated = true;
        GatewayError::Stream(concat("failed to decode aws event stream frame: ", error))
    }

    /// The transport failed: the reader stops.
    pub fn on_transport_error(&mut self)
        ensures
            !final(self).pending_frame,
            final(self).terminated,
    {
        self.pending_frame = false;
        self.terminated = true;
    }

    /// The byte stream ended: a frame still pending, or bytes still
    /// buffered, fail closed; the reader stops either way.
    pub fn on_eof(&mut self, buffer_empty: bool) -> (r: Option<GatewayError>)
        ensures
            (r is Some) == (!old(self).terminated && (old(self).pending_frame || !buffer_empty)),
            r matches Some(e) ==> e matches GatewayError::Stream(m) && m@ == incomplete_frame_message(),
            final(self).terminated,
            r is Some ==> !final(self).pending_frame,
    {
        let r = if !self.terminated && (self.pending_frame || !buffer_empty) {
            self.pending_frame = false;
            Some(GatewayError::Stream(to_owned_string("aws event stream ended with an incomplete frame")))
        } else {
            None
        };
        self.terminated = true;
        r
    }
}

/// What a fresh `MessageFrameDecoder` of `aws-smithy-eventstream` makes of
/// bytes that begin with a frame: none where more bytes are needed; the
/// bytes after the frame where it decodes a whole message; the message of
/// its error where the bytes are not a valid frame.
pub uninterp spec fn frame_decode(bytes: Seq<u8>) -> Option<Result<Seq<u8>, Seq<char>>>;

/// The headers `aws_smithy_eventstream::smithy::parse_response_headers`
/// reads from the message that `bytes` begin with: its message type and its
/// event or exception type, or the message of its error.
pub uninterp spec fn frame_headers(bytes: Seq<u8>) -> Result<(Seq<char>, Seq<char>), Seq<char>>;

/// The payload (`Message::payload`) of the message that `bytes` begin with.
pub uninterp spec fn frame_payload(bytes: Seq<u8>) -> Seq<u8>;

/// One step of decoding: the bytes begin with no whole frame yet, with a
/// frame whose message's headers and payload are given with the bytes
/// after it, or with bytes that are not a frame.
pub enum DecodeOutcome {
    Incomplete,
    Complete { headers: Result<(String, String), String>, payload: Vec<u8>, rest: Vec<u8> },
    Failed(String),
}

/// Decodes the frame that `bytes` begin with, with a fresh
/// `MessageFrameDecoder::decode_frame`, reading its headers with
/// `parse_response_headers` and its payload with `Message::payload`.
///
/// Trusted: the outcome is `frame_decode` of the bytes, and a whole frame's
/// headers and payload are `frame_headers` and `frame_payload` of them; the
/// bytes after a frame are what is left of `bytes` once a non-empty prefix
/// is read, as the decoder consumes its input from the front.
#[verifier::external_body]
fn decode_frame(bytes: &[u8]) -> (r: DecodeOutcome)
    ensures
        match r {
            DecodeOutcome::Incomplete => frame_decode(bytes@) is None,
            DecodeOutcome::Complete { headers, payload, rest } => {
                &&& frame_decode(bytes@) == Some(Ok::<Seq<u8>, Seq<char>>(rest@))
                &&& rest@.len() < bytes@.len()
                &&& rest@ == bytes@.skip(bytes@.len() - rest@.len())
                &&& headers_view(headers) == frame_headers(bytes@)
                &&& payload@ == frame_payload(bytes@)
            },
            DecodeOutcome::Failed(e) => frame_decode(bytes@) == Some(Err::<Seq<u8>, Seq<char>>(e@)),
        },
{
    let mut rest: &[u8] = bytes;
    match MessageFrameDecoder::new().decode_frame(&mut rest) {
        Ok(DecodedFrame::Incomplete) => DecodeOutcome::Incomplete,
        Ok(DecodedFrame::Complete(m)) => DecodeOutcome::Complete {
            headers: parse_response_headers(&m)
                .map(|h| (h.message_type.as_str().to_string(), h.smithy_type.as_str().to_string()))
                .map_err(|e| e.to_string()),
            payload: m.payload().to_vec(),
            rest: rest.to_vec(),
        },
        Err(e) => DecodeOutcome::Failed(e.to_string()),
    }
}

/// The error for bytes the frame decoder refuses.
pub open spec fn decode_failure_message(error: Seq<char>) -> Seq<char> {
    "failed to decode aws event stream frame: "@ + error
}

/// The bytes that frame `n` begins, in `buffer` read frame after frame;
/// empty once a frame is missing.
pub open spec fn frame_start(buffer: Seq<u8>, n: nat) -> Seq<u8>
    decreases n,
{
    if n == 0 {
        buffer
    } else {
        match frame_decode(frame_start(buffer, (n - 1) as nat)) {
            Some(Ok(rest)) => rest,
            _ => Seq::empty(),
        }
    }
}

/// Whether `item` is what frame `i` of `buffer` gives: the normalized line
/// or error of its message, or the decoder's refusal of its bytes.
pub open spec fn frame_item_at(buffer: Seq<u8>, i: nat, item: Result<String, GatewayError>) -> bool {
    let b = frame_start(buffer, i);
    match frame_decode(b) {
        Some(Ok(_)) => normalized_view(frame_headers(b), frame_payload(b), item),
        Some(Err(e)) => item matches Err(GatewayError::Stream(m)) && m@ == decode_failure_message(e),
        None => false,
    }
}

/// The state of an AWS EventStream reader: the bytes not yet decoded,
/// whether a frame is partly read, and whether the reader has stopped.
pub ghost struct EventStreamReaderV {
    pub buffer: Seq<u8>,
    pub pending: bool,
    pub stopped: bool,
}

/// Whether decoding the frames held in `before` gives `items` and leaves
/// `after`: item `i` is what frame `i` gives; decoding goes on while bytes
/// are held and a whole frame can be read, and an error item comes last and
/// stops the reader, which then holds nothing; otherwise the bytes after
/// the decoded frames are held, and a frame is pending exactly when some
/// are.
pub open spec fn drain_step(
    before: EventStreamReaderV,
    after: EventStreamReaderV,
    items: Seq<Result<String, GatewayError>>,
) -> bool {
    &&& forall|i: int| 0 <= i < items.len() ==> frame_item_at(before.buffer, i as nat, #[trigger] items[i])
    &&& forall|i: int| 0 <= i < items.len() - 1 ==> (#[trigger] items[i]) is Ok
    &&& after.stopped <==> (items.len() > 0 && items.last() is Err)
    &&& after.stopped ==> after.buffer.len() == 0 && !after.pending
    &&& !after.stopped ==> {
        &&& after.buffer == frame_start(before.buffer, items.len())
        &&& after.buffer.len() == 0 || frame_decode(after.buffer) is None
    }
    &&& (!after.stopped && (items.len() > 0 || before.buffer.len() > 0)) ==> after.pending == (after.buffer.len() > 0)
    &&& before.buffer.len() == 0 ==> items.len() == 0 && after == before
}

/// Whether the end of the bytes owes the incomplete-frame error: the
/// reader has not stopped, and a frame is pending or bytes are left.
pub open spec fn eof_error_owed(v: EventStreamReaderV) -> bool {
    !v.stopped && (v.pending || v.buffer.len() > 0)
}

/// An AWS EventStream reader fed with chunks of bytes: it decodes each
/// whole frame into a normalized line or error, and fails closed on a
/// transport error or on bytes cut off at the end.
pub struct AwsEventStreamReader {
    buffer: Vec<u8>,
    state: AwsEventStreamReaderState,
}

impl View for AwsEventStreamReader {
    type V = EventStreamReaderV;

    closed spec fn view(&self) -> EventStreamReaderV {
        EventStreamReaderV { buffer: self.buffer@, pending: self.state.pending_frame, stopped: self.state.terminated }
    }
}

impl AwsEventStreamReader {
    /// A reader with nothing read.
    pub fn new() -> (r: Self)
        ensures
            r@ == (EventStreamReaderV { buffer: Seq::empty(), pending: false, stopped: false }),
    {
        let r = AwsEventStreamReader { buffer: Vec::new(), state: AwsEventStreamReaderState::new() };
        proof {
            assert(r@.buffer =~= Seq::<u8>::empty());
        }
        r
    }

    fn drain(&mut self) -> (r: Vec<Result<String, GatewayError>>)
        requires
            !old(self)@.stopped,
        ensures
            drain_step(old(self)@, final(self)@, r@),
    {
        let ghost start = self@;
        let mut items: Vec<Result<String, GatewayError>> = Vec::new();
        while self.buffer.len() > 0
            invariant_except_break
                !self@.stopped,
                forall|i: int| 0 <= i < items@.len() ==> (#[trigger] items@[i]) is Ok,
                forall|i: int| 0 <= i < items@.len() ==> frame_item_at(start.buffer, i as nat, #[trigger] items@[i]),
                self@.buffer == frame_start(start.buffer, items@.len()),
                items@.len() > 0 ==> self@.pending == (self@.buffer.len() > 0),
                items@.len() == 0 ==> self@ == start,
                items@.len() > 0 ==> start.buffer.len() > 0,
            ensures
                drain_step(start, self@, items@),
            decreases self.buffer.len(),
        {
            let buffered_len = self.buffer.len();
            let ghost before = self.buffer@;
            let ghost n = items@.len();
            match decode_frame(self.buffer.as_slice()) {
                DecodeOutcome::Incomplete => {
                    self.state.on_incomplete(buffered_len);
                    break;
                },
                DecodeOutcome::Complete { headers, payload, rest } => {
                    let ghost gh = headers;
                    let ghost gp = payload@;
                    self.buffer = rest;
                    proof {
                        assert(frame_start(start.buffer, n + 1) == self.buffer@);
                    }
                    let normalized = normalize_aws_event_stream_message(headers, payload.as_slice());
                    let item = self.state.on_frame(normalized, self.buffer.len() > 0);
                    proof {
                        assert(frame_item_at(start.buffer, n, item));
                    }
                    let failed = item.is_err();
                    let ghost before_items = items@;
                    items.push(item);
                    proof {
                        assert(items@ =~= before_items.push(item));
                    }
                    if failed {
                        self.buffer = Vec::new();
                        proof {
                            assert(self@.buffer =~= Seq::<u8>::empty());
                        }
                        break;
                    }
                },
                DecodeOutcome::Failed(e) => {
                    self.buffer = Vec::new();
                    let err = self.state.on_decode_error(e.as_str());
                    proof {
                        assert(self@.buffer =~= Seq::<u8>::empty());
                        assert(frame_item_at(start.buffer, n, Err::<String, GatewayError>(err)));
                    }
                    let ghost before_items = items@;
                    items.push(Err(err));
                    proof {
                        assert(items@ =~= before_items.push(Err(err)));
                    }
                    break;
                },
            }
        }
        items
    }

    /// Takes the next chunk of the byte stream, or the transport's error,
    /// and gives the lines and errors of the frames it completes. A stopped
    /// reader gives nothing; a transport error gives that one error and
    /// stops the reader.
    pub fn push(&mut self, chunk: Result<&[u8], String>) -> (r: Vec<Result<String, GatewayError>>)
        ensures
            old(self)@.stopped ==> r@.len() == 0 && final(self)@ == old(self)@,
            !old(self)@.stopped ==> match chunk {
                Err(e) => {
                    &&& r@.len() == 1
                    &&& r@[0] matches Err(GatewayError::Http(m)) && m@ == e@
                    &&& final(self)@ == (EventStreamReaderV { buffer: Seq::empty(), pending: false, stopped: true })
                },
                Ok(bytes) => drain_step(
                    EventStreamReaderV { buffer: old(self)@.buffer + bytes@, ..old(self)@ },
                    final(self)@,
                    r@,
                ),
            },
    {
        if self.state.terminated {
            return Vec::new();
        }
        match chunk {
            Ok(bytes) => {
                let ghost before = self.buffer@;
                let mut j: usize = 0;
                while j < bytes.len()
                    invariant
                        0 <= j <= bytes@.len(),
                        self.buffer@ == before + bytes@.take(j as int),
                        !self.state.terminated,
                        before == old(self)@.buffer,
                        self.state.pending_frame == old(self)@.pending,
                        !old(self)@.stopped,
                    decreases bytes.len() - j,
                {
                    self.buffer.push(bytes[j]);
                    proof {
                        assert(bytes@.take(j + 1) =~= bytes@.take(j as int).push(bytes@[j as int]));
                    }
                    j += 1;
                }
                proof {
                    assert(bytes@.take(j as int) =~= bytes@);
                    assert(self@ == EventStreamReaderV { buffer: old(self)@.buffer + bytes@, ..old(self)@ });
                }
                self.drain()
            },
            Err(e) => {
                self.buffer = Vec::new();
                self.state.on_transport_error();
                proof {
                    assert(self@.buffer =~= Seq::<u8>::empty());
                }
                let ghost ge = e@;
                let mut r: Vec<Result<String, GatewayError>> = Vec::new();
                r.push(Err(GatewayError::Http(e)));
                proof {
                    assert(r@[0] matches Err(GatewayError::Http(m)) && m@ == ge);
                    assert(self@ == (EventStreamReaderV { buffer: Seq::empty(), pending: false, stopped: true }));
                }
                r
            },
        }
    }

    /// The byte stream ended: the frames still held are decoded, and then
    /// the incomplete-frame error is added exactly when the reader has not
    /// stopped and a frame is pending or bytes are left. The reader stops.
    pub fn finish(&mut self) -> (r: Vec<Result<String, GatewayError>>)
        ensures
            old(self)@.stopped ==> r@.len() == 0 && final(self)@ == old(self)@,
            !old(self)@.stopped ==> {
                &&& final(self)@.stopped
                &&& final(self)@.buffer.len() == 0
                &&& exists|mid: EventStreamReaderV, k: int|
                    0 <= k <= r@.len() && #[trigger] drain_step(old(self)@, mid, r@.take(k)) && (if eof_error_owed(
                        mid,
                    ) {
                        k == r@.len() - 1 && (r@[k] matches Err(GatewayError::Stream(m)) && m@
                            == incomplete_frame_message())
                    } else {
                        k == r@.len()
                    })
            },
    {
        if self.state.terminated {
            return Vec::new();
        }
        let mut items = self.drain();
        let ghost mid = self@;
        let ghost drained = items@;
        let buffer_empty = self.buffer.len() == 0;
        match self.state.on_eof(buffer_empty) {
            Some(e) => {
                items.push(Err(e));
            },
            None => {},
        }
        self.buffer = Vec::new();
        proof {
            assert(self@.buffer =~= Seq::<u8>::empty());
            let k = drained.len() as int;
            assert(items@.take(k) =~= drained);
            assert(drain_step(old(self)@, mid, items@.take(k)));
        }
        items
    }
}

} // verus!
