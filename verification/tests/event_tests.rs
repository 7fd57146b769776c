use speech_protocol::auth::Auth;
use speech_protocol::codec::encode_binary_frame;
use speech_protocol::events::{Event, EventReader, TransportSignal};
use speech_protocol::session::create_turn_end_message;
use speech_protocol::codec::encode_text_frame;
use speech_protocol::message::Data;
use speech_protocol::ProtocolError;

fn text_frame(path: &str, body: Option<&str>) -> String {
    let headers = vec![
        ("X-RequestId".to_string(), "rid".to_string()),
        ("Path".to_string(), path.to_string()),
    ];
    encode_text_frame(&headers, body)
}

#[test]
fn audio_frame_projects_to_audio_event() {
    let headers = vec![
        ("X-RequestId".to_string(), "rid".to_string()),
        ("Path".to_string(), "audio".to_string()),
    ];
    let payload: Vec<u8> = vec![1, 2, 3, 4];
    let frame = encode_binary_frame(&headers, &payload);
    let mut reader = EventReader::new();
    match reader.step(TransportSignal::Binary(frame)) {
        Some(Ok(Event::Audio {
            request_id,
            payload: got,
        })) => {
            assert_eq!(request_id, "rid");
            assert_eq!(got, payload);
        }
        other => panic!("expected an audio event, got {:?}", other),
    }
    assert!(!reader.ended);
}

#[test]
fn turn_start_then_turn_end_ends_the_sequence() {
    let mut reader = EventReader::new();
    match reader.step(TransportSignal::Text(text_frame("turn.start", Some("{}")))) {
        Some(Ok(Event::TurnStart { request_id, .. })) => assert_eq!(request_id, "rid"),
        other => panic!("expected turn.start, got {:?}", other),
    }
    assert!(!reader.ended);
    match reader.step(TransportSignal::Text(text_frame("turn.end", None))) {
        Some(Ok(Event::TurnEnd { request_id })) => assert_eq!(request_id, "rid"),
        other => panic!("expected turn.end, got {:?}", other),
    }
    assert!(reader.ended);
    assert!(reader
        .step(TransportSignal::Text(text_frame("turn.start", None)))
        .is_none());
}

#[test]
fn transport_failure_yields_one_result_then_ends() {
    let mut reader = EventReader::new();
    match reader.step(TransportSignal::Failure("socket reset".to_string())) {
        Some(Err(ProtocolError::Transport(msg))) => assert_eq!(msg, "socket reset"),
        other => panic!("expected a transport failure, got {:?}", other),
    }
    assert!(reader.ended);
    assert!(reader.step(TransportSignal::Closed).is_none());
}

#[test]
fn close_ends_the_sequence_without_a_result() {
    let mut reader = EventReader::new();
    assert!(reader.step(TransportSignal::Closed).is_none());
    assert!(reader.ended);
}

#[test]
fn unrecognized_path_is_a_projection_failure() {
    let mut reader = EventReader::new();
    match reader.step(TransportSignal::Text(text_frame("something.else", None))) {
        Some(Err(ProtocolError::FrameParse)) => {}
        other => panic!("expected a frame-parse failure, got {:?}", other),
    }
    assert!(reader.ended);
}

#[test]
fn malformed_frame_is_a_projection_failure() {
    let mut reader = EventReader::new();
    match reader.step(TransportSignal::Text("no headers here".to_string())) {
        Some(Err(ProtocolError::FrameParse)) => {}
        other => panic!("expected a frame-parse failure, got {:?}", other),
    }
    assert!(reader.ended);
}

#[test]
fn response_event_carries_body() {
    let mut reader = EventReader::new();
    match reader.step(TransportSignal::Text(text_frame(
        "response",
        Some("{\"ok\":true}"),
    ))) {
        Some(Ok(Event::Response { request_id, body })) => {
            assert_eq!(request_id, "rid");
            assert_eq!(body.as_deref(), Some("{\"ok\":true}"));
        }
        other => panic!("expected a response event, got {:?}", other),
    }
}

#[test]
fn turn_end_message_round_trips_through_projection() {
    let msg = create_turn_end_message("rid-9".to_string());
    let frame = encode_text_frame(
        &msg.headers,
        match &msg.data {
            Data::Text(Some(b)) => Some(b.as_str()),
            _ => None,
        },
    );
    let mut reader = EventReader::new();
    match reader.step(TransportSignal::Text(frame)) {
        Some(Ok(Event::TurnEnd { request_id })) => assert_eq!(request_id, "rid-9"),
        other => panic!("expected turn.end, got {:?}", other),
    }
    assert!(reader.ended);
}

#[test]
fn auth_variants() {
    let auth = Auth::from_subscription("westeurope".to_string(), "key".to_string());
    assert_eq!(auth.subscription_region(), Some(("westeurope", "key")));
    let host = Auth::from_host("ws://localhost:5000".to_string());
    assert!(host.subscription_region().is_none());
}
