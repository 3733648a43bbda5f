use aisix::auth::GatewayError;
use aisix::streams::{
    build_aws_event_stream_exception_message, nonempty_lines, normalize_aws_event_stream_message,
    AwsEventStreamReaderState, SseLineReader,
};

#[test]
fn sse_reader_splits_lines_across_chunks() {
    let mut reader = SseLineReader::new();
    let mut lines = Vec::new();
    lines.extend(reader.push_chunk(b"data: first\n"));
    lines.extend(reader.push_chunk(b"data: second"));
    lines.extend(reader.push_chunk(b"\n"));
    lines.extend(reader.finish());

    assert_eq!(lines, vec!["data: first", "data: second"]);
}

#[test]
fn sse_reader_flushes_trailing_partial_line_on_eof() {
    let mut reader = SseLineReader::new();
    let mut lines = Vec::new();
    lines.extend(reader.push_chunk(b"data: first\n"));
    lines.extend(reader.push_chunk(b"data: second"));
    lines.extend(reader.finish());

    assert_eq!(lines, vec!["data: first", "data: second"]);
}

#[test]
fn sse_reader_does_not_flush_partial_line_after_error() {
    let mut reader = SseLineReader::new();
    assert!(reader.push_chunk(b"data: partial").is_empty());
    reader.fail();
    assert!(reader.finish().is_empty());
    assert!(reader.push_chunk(b"more\n").is_empty());
}

#[test]
fn sse_reader_drops_blank_lines_and_carriage_returns() {
    let mut reader = SseLineReader::new();
    let lines = reader.push_chunk(b"data: a\r\n\r\n\ndata: b\n");
    assert_eq!(lines, vec!["data: a", "data: b"]);
    assert_eq!(nonempty_lines("x\r\ny\rz"), vec!["x", "y\rz"]);
}

#[test]
fn sse_reader_decodes_split_multibyte_characters_leniently() {
    let mut reader = SseLineReader::new();
    let bytes = "data: é\n".as_bytes();
    assert!(reader.push_chunk(&bytes[..7]).is_empty());
    assert_eq!(reader.push_chunk(&bytes[7..]), vec!["data: é"]);
    assert_eq!(reader.push_chunk(&[0xff, b'\n']), vec!["\u{fffd}"]);
}

#[test]
fn exception_messages_become_stream_errors() {
    let result = normalize_aws_event_stream_message(
        Ok(("exception".to_string(), "validationException".to_string())),
        b"{\"message\":\"bad request\"}",
    );
    assert!(matches!(
        result,
        Err(GatewayError::Stream(message)) if message.contains("validationException") && message.contains("bad request")
    ));
}

#[test]
fn event_messages_become_type_and_payload_lines() {
    let line = normalize_aws_event_stream_message(
        Ok(("event".to_string(), "messageStart".to_string())),
        b"{\"role\":\"assistant\"}",
    )
    .unwrap();
    let value: serde_json::Value = serde_json::from_str(&line).unwrap();
    assert_eq!(value["type"], "messageStart");
    assert_eq!(value["payload"]["role"], "assistant");

    let empty = normalize_aws_event_stream_message(Ok(("event".to_string(), "ping".to_string())), b"").unwrap();
    let value: serde_json::Value = serde_json::from_str(&empty).unwrap();
    assert!(value["payload"].is_null());

    let bad = normalize_aws_event_stream_message(Ok(("event".to_string(), "x".to_string())), b"{oops");
    assert!(matches!(bad, Err(GatewayError::Transform(_))));
}

#[test]
fn other_message_types_and_header_errors_are_stream_errors() {
    let r = normalize_aws_event_stream_message(Ok(("error".to_string(), "x".to_string())), b"");
    assert!(matches!(r, Err(GatewayError::Stream(m)) if m == "unsupported aws event stream message type: error"));
    let r = normalize_aws_event_stream_message(Err("missing :message-type".to_string()), b"");
    assert!(matches!(r, Err(GatewayError::Stream(m)) if m == "failed to parse aws event stream headers: missing :message-type"));
}

#[test]
fn exception_detail_prefers_message_then_json_then_text() {
    assert_eq!(
        build_aws_event_stream_exception_message("throttlingException", b"{\"Message\":\"slow down\"}"),
        "aws event stream exception throttlingException: slow down"
    );
    assert_eq!(
        build_aws_event_stream_exception_message("x", b"{\"code\":5}"),
        "aws event stream exception x: {\"code\":5}"
    );
    assert_eq!(build_aws_event_stream_exception_message("x", b"  plain text "), "aws event stream exception x: plain text");
    assert_eq!(build_aws_event_stream_exception_message("x", b"null"), "aws event stream exception x: null");
    assert_eq!(build_aws_event_stream_exception_message("x", b"   "), "aws event stream exception x");
}

#[test]
fn aws_reader_state_fails_closed_on_truncated_frames() {
    let mut state = AwsEventStreamReaderState::new();
    state.on_incomplete(10);
    assert!(state.pending_frame);
    let e = state.on_eof(false).unwrap();
    assert!(matches!(e, GatewayError::Stream(m) if m == "aws event stream ended with an incomplete frame"));
    assert!(state.terminated);

    let mut clean = AwsEventStreamReaderState::new();
    assert_eq!(clean.on_frame(Ok("line".to_string()), false).unwrap(), "line");
    assert!(clean.on_eof(true).is_none());
    assert!(clean.terminated);

    let mut broken = AwsEventStreamReaderState::new();
    let e = broken.on_decode_error("crc mismatch");
    assert!(matches!(e, GatewayError::Stream(m) if m == "failed to decode aws event stream frame: crc mismatch"));
    assert!(broken.terminated && !broken.pending_frame);
    assert!(broken.on_eof(false).is_none());
}

#[test]
fn sse_reader_chunking_leaves_same_partial_line() {
    let mut split = SseLineReader::new();
    let mut whole = SseLineReader::new();

    let mut split_lines = split.push_chunk(b"data: a\ndata: b");
    split_lines.extend(split.push_chunk(b"c\ndata: d"));
    let whole_lines = whole.push_chunk(b"data: a\ndata: bc\ndata: d");

    assert_eq!(split_lines, whole_lines);
    assert_eq!(split.finish(), vec!["data: d".to_string()]);
    assert_eq!(whole.finish(), vec!["data: d".to_string()]);
}
