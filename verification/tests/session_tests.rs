use speech_protocol::message::Data;
use speech_protocol::session::{
    Config, Session, SessionState, StreamingRequest, TextStream,
};
use speech_protocol::ProtocolError;

fn body_of(data: &Data) -> &str {
    match data {
        Data::Text(Some(b)) => b.as_str(),
        _ => panic!("expected a text body"),
    }
}

#[test]
fn short_ascii_write_yields_one_verbatim_message() {
    let mut stream = TextStream::new("rid".to_string());
    let msgs = stream.write("Input text streaming. ").unwrap();
    assert_eq!(msgs.len(), 1);
    let msg = &msgs[0];
    assert_eq!(msg.path, "text");
    assert_eq!(msg.id, "rid");
    assert_eq!(
        msg.get_header("Content-Type").unwrap().as_str(),
        "text/plain; charset=utf-8"
    );
    assert_eq!(body_of(&msg.data), "Input text streaming. ");
}

#[test]
fn write_after_finish_is_protocol_misuse() {
    let mut stream = TextStream::new("rid".to_string());
    let end = stream.finish().unwrap();
    assert_eq!(end.path, "turn.end");
    assert!(matches!(end.data, Data::Text(None)));
    match stream.write("more") {
        Err(ProtocolError::ProtocolMisuse) => {}
        Ok(_) => panic!("write after finish must fail and send nothing"),
        Err(_) => panic!("write after finish must fail with a misuse error"),
    }
    assert!(matches!(
        stream.finish(),
        Err(ProtocolError::ProtocolMisuse)
    ));
}

#[test]
fn long_write_is_chunked_in_order() {
    let mut stream = TextStream::new("rid".to_string());
    let text = "ab".repeat(3000);  // 6000 bytes
    let msgs = stream.write(&text).unwrap();
    assert_eq!(msgs.len(), 2);
    let rebuilt: String = msgs.iter().map(|m| body_of(&m.data)).collect();
    assert_eq!(rebuilt, text);
    assert!(msgs
        .iter()
        .all(|m| body_of(&m.data).len() <= 4096 && m.path == "text" && m.id == "rid"));
}

#[test]
fn multibyte_write_keeps_code_points_whole() {
    let mut stream = TextStream::new("rid".to_string());
    let text = "\u{4e16}\u{754c}".repeat(1000);  // 6000 bytes of three-byte chars
    let msgs = stream.write(&text).unwrap();
    assert!(msgs.len() >= 2);
    let rebuilt: String = msgs.iter().map(|m| body_of(&m.data)).collect();
    assert_eq!(rebuilt, text);
}

#[test]
fn context_body_locale_and_default_voice() {
    let config = Config::new();
    assert!(!config.auto_detect_language);
    assert_eq!(config.language, "en-US");
    assert!(config.voice.is_none());
    assert_eq!(config.default_voice, "en-US-JennyNeural");

    let mut session = Session::new("rid".to_string());
    session.speech_config_message(&config).unwrap();
    let msg = session.synthesis_context_message(&config, None).unwrap();
    assert_eq!(msg.path, "synthesis.context");
    let v: serde_json::Value = serde_json::from_str(body_of(&msg.data)).unwrap();
    let synthesis = &v["synthesis"];
    assert_eq!(synthesis["language"]["autoDetection"], false);
    assert_eq!(synthesis["language"]["locale"], "en-US");
    assert_eq!(synthesis["voice"]["name"], "en-US-JennyNeural");
    assert!(synthesis.get("request").is_none());
}

#[test]
fn override_with_only_temperature_has_single_key() {
    let config = Config::new();
    let request = StreamingRequest::new().temperature("0.5".to_string());
    let mut session = Session::new("rid".to_string());
    session.speech_config_message(&config).unwrap();
    let msg = session
        .synthesis_context_message(&config, Some(&request))
        .unwrap();
    let v: serde_json::Value = serde_json::from_str(body_of(&msg.data)).unwrap();
    let req = v["synthesis"]["request"]
        .as_object()
        .expect("request object must be present");
    assert_eq!(req.len(), 1);
    assert_eq!(req["temperature"], 0.5);
}

#[test]
fn absent_override_fields_never_appear() {
    let config = Config::new();
    let request = StreamingRequest::new()
        .pitch("+5%".to_string())
        .rate("fast".to_string());
    let mut session = Session::new("rid".to_string());
    session.speech_config_message(&config).unwrap();
    let msg = session
        .synthesis_context_message(&config, Some(&request))
        .unwrap();
    let v: serde_json::Value = serde_json::from_str(body_of(&msg.data)).unwrap();
    let req = v["synthesis"]["request"].as_object().unwrap();
    assert_eq!(req.len(), 2);
    assert_eq!(req["pitch"], "+5%");
    assert_eq!(req["rate"], "fast");
    assert!(req.get("volume").is_none());
    assert!(req.get("style").is_none());
    assert!(req.get("temperature").is_none());
    assert!(req.get("preferLocales").is_none());
    assert!(req.get("customLexiconUrl").is_none());
}

#[test]
fn override_values_are_json_escaped() {
    let config = Config::new();
    let tricky = "a\"b\\c\nd\u{1}e\tf";
    let request = StreamingRequest::new().style(tricky.to_string());
    let mut session = Session::new("rid".to_string());
    session.speech_config_message(&config).unwrap();
    let msg = session
        .synthesis_context_message(&config, Some(&request))
        .unwrap();
    let body = body_of(&msg.data);
    assert!(body.contains("\\\"b"));
    assert!(body.contains("\\u0001"));
    let v: serde_json::Value = serde_json::from_str(body).unwrap();
    assert_eq!(v["synthesis"]["request"]["style"], tricky);
}

#[test]
fn metadata_flags_are_taken_verbatim() {
    let mut config = Config::new();
    config.viseme_enabled = true;
    config.word_boundary_enabled = true;
    let mut session = Session::new("rid".to_string());
    session.speech_config_message(&config).unwrap();
    let msg = session.synthesis_context_message(&config, None).unwrap();
    let v: serde_json::Value = serde_json::from_str(body_of(&msg.data)).unwrap();
    let opts = &v["synthesis"]["audio"]["metadataOptions"];
    assert_eq!(opts["visemeEnabled"], true);
    assert_eq!(opts["wordBoundaryEnabled"], true);
    assert_eq!(opts["bookmarkEnabled"], false);
    assert_eq!(opts["sentenceBoundaryEnabled"], false);
    assert_eq!(
        v["synthesis"]["audio"]["outputFormat"],
        "audio-16khz-32kbitrate-mono-mp3"
    );
}

#[test]
fn session_enforces_message_order() {
    let config = Config::new();
    let mut session = Session::new("rid".to_string());
    assert_eq!(session.state, SessionState::Idle);

    // context before config is a misuse
    assert!(matches!(
        session.synthesis_context_message(&config, None),
        Err(ProtocolError::ProtocolMisuse)
    ));
    // content before context is a misuse
    assert!(matches!(
        session.ssml_message("<speak/>"),
        Err(ProtocolError::ProtocolMisuse)
    ));

    session.speech_config_message(&config).unwrap();
    assert_eq!(session.state, SessionState::ConfigSent);
    // a second config message is a misuse
    assert!(matches!(
        session.speech_config_message(&config),
        Err(ProtocolError::ProtocolMisuse)
    ));

    session.synthesis_context_message(&config, None).unwrap();
    assert_eq!(session.state, SessionState::ContextSent);

    let ssml = session.ssml_message("<speak>Hi</speak>").unwrap();
    assert_eq!(ssml.path, "ssml");
    assert_eq!(body_of(&ssml.data), "<speak>Hi</speak>");
    assert_eq!(session.state, SessionState::ContentSent);

    // no further content after the one-shot body
    assert!(matches!(
        session.ssml_message("<speak/>"),
        Err(ProtocolError::ProtocolMisuse)
    ));
    assert!(matches!(
        session.text_stream(),
        Err(ProtocolError::ProtocolMisuse)
    ));
}

#[test]
fn one_shot_text_content_follows_context() {
    let config = Config::new();
    let mut session = Session::new("rid-8".to_string());
    session.speech_config_message(&config).unwrap();
    session.synthesis_context_message(&config, None).unwrap();
    let msg = session.text_message("Hello there.").unwrap();
    assert_eq!(msg.path, "text");
    assert_eq!(msg.id, "rid-8");
    assert_eq!(body_of(&msg.data), "Hello there.");
    assert_eq!(session.state, SessionState::ContentSent);
    assert!(matches!(
        session.text_message("again"),
        Err(ProtocolError::ProtocolMisuse)
    ));
}

#[test]
fn streaming_session_hands_out_write_handle() {
    let config = Config::new();
    let mut session = Session::new("rid-7".to_string());
    session.speech_config_message(&config).unwrap();
    session.synthesis_context_message(&config, None).unwrap();
    let mut stream = session.text_stream().unwrap();
    assert_eq!(session.state, SessionState::Streaming);
    let msgs = stream.write("hello").unwrap();
    assert_eq!(msgs.len(), 1);
    assert_eq!(msgs[0].id, "rid-7");
    let end = stream.finish().unwrap();
    assert_eq!(end.id, "rid-7");
    session.close();
    assert_eq!(session.state, SessionState::Closed);
    assert!(matches!(
        session.text_stream(),
        Err(ProtocolError::ProtocolMisuse)
    ));
}
