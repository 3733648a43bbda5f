use aisix::auth::GatewayError;
use aisix::streams::AwsEventStreamReader;
use aws_smithy_eventstream::frame::write_message_to;
use aws_smithy_types::event_stream::{Header, HeaderValue, Message};

fn encode_message(headers: Vec<Header>, payload: &str) -> Vec<u8> {
    let message = Message::new_from_parts(headers, payload.as_bytes().to_vec());
    let mut buffer = Vec::new();
    write_message_to(&message, &mut buffer).unwrap();
    buffer
}

fn encode_event_message(event_type: &str, payload: &str) -> Vec<u8> {
    encode_message(
        vec![
            Header::new(":message-type", HeaderValue::String("event".into())),
            Header::new(":event-type", HeaderValue::String(event_type.to_string().into())),
            Header::new(":content-type", HeaderValue::String("application/json".into())),
        ],
        payload,
    )
}

fn encode_exception_message(exception_type: &str, payload: &str) -> Vec<u8> {
    encode_message(
        vec![
            Header::new(":message-type", HeaderValue::String("exception".into())),
            Header::new(":exception-type", HeaderValue::String(exception_type.to_string().into())),
            Header::new(":content-type", HeaderValue::String("application/json".into())),
        ],
        payload,
    )
}

fn read_all(chunks: Vec<Result<Vec<u8>, String>>) -> Vec<Result<String, GatewayError>> {
    let mut reader = AwsEventStreamReader::new();
    let mut out = Vec::new();
    for chunk in &chunks {
        match chunk {
            Ok(bytes) => out.extend(reader.push(Ok(bytes.as_slice()))),
            Err(e) => out.extend(reader.push(Err(e.clone()))),
        }
    }
    out.extend(reader.finish());
    out
}

#[test]
fn aws_event_stream_reader_decodes_split_event_frames() {
    let message_start = encode_event_message("messageStart", r#"{"role":"assistant"}"#);
    let metadata = encode_event_message("metadata", r#"{"usage":{"inputTokens":3,"outputTokens":5,"totalTokens":8}}"#);
    let split_at = message_start.len() / 2;

    let items = read_all(vec![
        Ok(message_start[..split_at].to_vec()),
        Ok(message_start[split_at..].to_vec()),
        Ok(metadata),
    ]);

    assert_eq!(items.len(), 2);
    let first: serde_json::Value = serde_json::from_str(items[0].as_ref().unwrap()).unwrap();
    let second: serde_json::Value = serde_json::from_str(items[1].as_ref().unwrap()).unwrap();
    assert_eq!(first["type"], "messageStart");
    assert_eq!(first["payload"]["role"], "assistant");
    assert_eq!(second["type"], "metadata");
    assert_eq!(second["payload"]["usage"]["totalTokens"], 8);
}

#[test]
fn aws_event_stream_reader_surfaces_exception_frames() {
    let items = read_all(vec![Ok(encode_exception_message("validationException", r#"{"message":"bad request"}"#))]);

    assert_eq!(items.len(), 1);
    assert!(matches!(
        &items[0],
        Err(GatewayError::Stream(message)) if message.contains("validationException") && message.contains("bad request")
    ));
}

#[test]
fn aws_event_stream_reader_fails_closed_on_truncated_frame() {
    let frame = encode_event_message("metadata", r#"{"usage":null}"#);

    let items = read_all(vec![Ok(frame[..frame.len() - 3].to_vec())]);

    assert_eq!(items.len(), 1);
    assert!(matches!(&items[0], Err(GatewayError::Stream(m)) if m == "aws event stream ended with an incomplete frame"));
}

#[test]
fn aws_event_stream_reader_stops_on_transport_error() {
    let frame = encode_event_message("metadata", r#"{"usage":null}"#);

    let items = read_all(vec![Ok(frame[..5].to_vec()), Err("connection reset".to_string()), Ok(frame.clone())]);

    assert_eq!(items.len(), 1);
    assert!(matches!(&items[0], Err(GatewayError::Http(m)) if m == "connection reset"));
}

#[test]
fn aws_event_stream_reader_refuses_corrupt_frames() {
    let mut frame = encode_event_message("metadata", r#"{"usage":null}"#);
    let last = frame.len() - 1;
    frame[last] ^= 0xff;

    let items = read_all(vec![Ok(frame)]);

    assert_eq!(items.len(), 1);
    assert!(matches!(&items[0], Err(GatewayError::Stream(m)) if m.starts_with("failed to decode aws event stream frame: ")));
}
