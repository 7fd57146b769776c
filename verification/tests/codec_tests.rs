use speech_protocol::codec::{
    decode_binary_frame, decode_text_frame, encode_binary_frame, encode_text_frame,
};
use speech_protocol::message::Data;
use speech_protocol::ProtocolError;

fn sample_headers() -> Vec<(String, String)> {
    vec![
        ("X-RequestId".to_string(), "abc-123".to_string()),
        ("Path".to_string(), "turn.start".to_string()),
        ("Content-Type".to_string(), "application/json".to_string()),
    ]
}

#[test]
fn encode_then_decode_returns_original_headers_and_body() {
    let headers = sample_headers();
    let frame = encode_text_frame(&headers, Some("{\"x\":1}"));
    assert_eq!(
        frame,
        "X-RequestId: abc-123\r\nPath: turn.start\r\nContent-Type: application/json\r\n\r\n{\"x\":1}"
    );
    let msg = decode_text_frame(&frame).unwrap();
    assert_eq!(msg.headers, headers);
    assert_eq!(msg.id, "abc-123");
    assert_eq!(msg.path, "turn.start");
    match msg.data {
        Data::Text(Some(ref b)) => assert_eq!(b, "{\"x\":1}"),
        _ => panic!("expected a text body"),
    }
}

#[test]
fn encode_without_body_decodes_to_no_body() {
    let headers = sample_headers();
    let frame = encode_text_frame(&headers, None);
    let msg = decode_text_frame(&frame).unwrap();
    assert_eq!(msg.headers, headers);
    assert!(matches!(msg.data, Data::Text(None)));
}

#[test]
fn empty_body_is_distinct_from_no_body() {
    let headers = sample_headers();
    let frame = encode_text_frame(&headers, Some(""));
    let msg = decode_text_frame(&frame).unwrap();
    match msg.data {
        Data::Text(Some(ref b)) => assert_eq!(b, ""),
        _ => panic!("an empty trailing segment must decode as an empty body"),
    }
}

#[test]
fn missing_request_id_fails_decode() {
    let frame = "Path: turn.start\r\nContent-Type: application/json\r\n\r\n{}";
    match decode_text_frame(frame) {
        Err(ProtocolError::FrameParse) => {}
        _ => panic!("a frame without X-RequestId must fail decode"),
    }
}

#[test]
fn missing_path_fails_decode() {
    let frame = "X-RequestId: abc\r\nContent-Type: application/json\r\n\r\n{}";
    match decode_text_frame(frame) {
        Err(ProtocolError::FrameParse) => {}
        _ => panic!("a frame without Path must fail decode"),
    }
}

#[test]
fn header_line_without_separator_fails_decode() {
    let frame = "X-RequestId abc\r\nPath: x\r\n\r\n";
    assert!(matches!(
        decode_text_frame(frame),
        Err(ProtocolError::FrameParse)
    ));
}

#[test]
fn header_line_with_two_separators_fails_decode() {
    let frame = "X-RequestId: a: b\r\nPath: x\r\n\r\n";
    assert!(matches!(
        decode_text_frame(frame),
        Err(ProtocolError::FrameParse)
    ));
}

#[test]
fn unterminated_header_line_fails_decode() {
    let frame = "X-RequestId: abc";
    assert!(matches!(
        decode_text_frame(frame),
        Err(ProtocolError::FrameParse)
    ));
}

#[test]
fn binary_frame_round_trip() {
    let headers = vec![
        ("X-RequestId".to_string(), "abc".to_string()),
        ("Path".to_string(), "audio".to_string()),
    ];
    let payload: Vec<u8> = vec![0, 159, 146, 150, 255, 13, 10, 13, 10, 1];
    let frame = encode_binary_frame(&headers, &payload);
    let msg = decode_binary_frame(&frame).unwrap();
    assert_eq!(msg.id, "abc");
    assert_eq!(msg.path, "audio");
    assert_eq!(msg.headers, headers);
    match msg.data {
        Data::Binary(ref p) => assert_eq!(*p, payload),
        _ => panic!("expected a binary payload"),
    }
}

#[test]
fn binary_frame_with_invalid_utf8_header_block_fails() {
    // 0xff cannot start a UTF-8 encoding
    let mut frame: Vec<u8> = Vec::new();
    frame.extend_from_slice(&[0xff, 0xfe]);
    frame.extend_from_slice(b"X-RequestId: a\r\nPath: audio\r\n\r\n");
    assert!(matches!(
        decode_binary_frame(&frame),
        Err(ProtocolError::FrameParse)
    ));
}

#[test]
fn binary_frame_without_terminator_fails() {
    let frame = b"X-RequestId: a\r\nPath: audio\r\n".to_vec();
    assert!(matches!(
        decode_binary_frame(&frame),
        Err(ProtocolError::FrameParse)
    ));
}

#[test]
fn error_descriptions() {
    assert_eq!(ProtocolError::FrameParse.describe(), "frame parse failure");
    assert_eq!(ProtocolError::ProtocolMisuse.describe(), "protocol misuse");
    assert_eq!(
        ProtocolError::Transport("boom".to_string()).describe(),
        "transport failure"
    );
    assert_eq!(ProtocolError::Encoding.describe(), "encoding failure");
}
