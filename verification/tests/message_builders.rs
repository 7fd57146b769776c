use speech_protocol::codec::{decode_text_frame, encode_text_frame};
use speech_protocol::message::{Data, Message};
use speech_protocol::session::{
    create_speech_config_message, create_ssml_message, create_text_message,
    create_turn_end_message, Config,
};

/// Encodes a built message to its wire frame and decodes it back, as a
/// frame received from the transport would be.
fn round_trip(msg: Message) -> Message {
    let body = match &msg.data {
        Data::Text(Some(b)) => Some(b.as_str()),
        _ => None,
    };
    let frame = encode_text_frame(&msg.headers, body);
    decode_text_frame(&frame).unwrap()
}

#[test]
fn test_create_speech_config_message() {
    let config = Config::new();
    let ws_msg = create_speech_config_message("id".to_string(), &config);
    let msg = round_trip(ws_msg);

    assert_eq!(msg.path, "speech.config");
    assert_eq!(msg.id, "id");
    assert_eq!(
        msg.get_header("Content-Type").unwrap().as_str(),
        "application/json"
    );
    assert!(msg.get_header("X-Timestamp").is_some());

    match msg.data {
        Data::Text(Some(ref body)) => {
            let v: serde_json::Value = serde_json::from_str(body).unwrap();
            assert!(v.get("context").is_some());
        }
        _ => panic!("expected text body"),
    }
}

#[test]
fn test_create_ssml_message() {
    let ws_msg = create_ssml_message("id".to_string(), "<speak>Hello</speak>");
    let msg = round_trip(ws_msg);

    assert_eq!(msg.path, "ssml");
    assert_eq!(msg.id, "id");
    assert_eq!(
        msg.get_header("Content-Type").unwrap().as_str(),
        "application/ssml+xml"
    );
    assert!(matches!(msg.data, Data::Text(Some(_))));
}

#[test]
fn test_create_text_message() {
    let ws_msg = create_text_message("id".to_string(), "hello");
    let msg = round_trip(ws_msg);
    assert_eq!(msg.path, "text");
    assert_eq!(msg.id, "id");
    assert_eq!(
        msg.get_header("Content-Type").unwrap().as_str(),
        "text/plain; charset=utf-8"
    );
    match msg.data {
        Data::Text(Some(ref body)) => assert_eq!(body, "hello"),
        _ => panic!("expected text body"),
    }
}

#[test]
fn test_create_turn_end_message() {
    let ws_msg = create_turn_end_message("id".to_string());
    let msg = round_trip(ws_msg);
    assert_eq!(msg.path, "turn.end");
    assert_eq!(msg.id, "id");
    assert!(msg.get_header("X-Timestamp").is_some());
    match msg.data {
        Data::Text(None) => {}
        _ => panic!("expected empty body"),
    }
}

#[test]
fn timestamp_header_is_decimal() {
    let msg = create_turn_end_message("id".to_string());
    let ts = msg.get_header("X-Timestamp").unwrap();
    assert!(!ts.is_empty());
    assert!(ts.chars().all(|c| c.is_ascii_digit()));
}

#[test]
fn speech_config_header_order_is_exact() {
    let config = Config::new();
    let msg = create_speech_config_message("rid-1".to_string(), &config);
    let names: Vec<&str> = msg.headers.iter().map(|h| h.0.as_str()).collect();
    assert_eq!(names, vec!["X-RequestId", "Path", "Content-Type", "X-Timestamp"]);
    assert_eq!(msg.headers[0].1, "rid-1");
    match msg.data {
        Data::Text(Some(ref body)) => {
            assert_eq!(body, "{\"context\":{\"system\":{},\"os\":{}}}");
        }
        _ => panic!("expected text body"),
    }
}

#[test]
fn text_message_header_order_is_exact() {
    let msg = create_text_message("rid-2".to_string(), "hi");
    let names: Vec<&str> = msg.headers.iter().map(|h| h.0.as_str()).collect();
    assert_eq!(names, vec!["Content-Type", "X-Timestamp", "X-RequestId", "Path"]);
    assert_eq!(msg.headers[3].1, "text");
}
