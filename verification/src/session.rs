//! The session protocol: ordered construction of the messages of one
//! synthesis operation.
//!
//! A [`Session`] is bound to one request identifier and sequences the
//! preamble — a `speech.config` message, then a `synthesis.context`
//! message — before content may follow: either one SSML message (one-shot
//! synthesis), or a [`TextStream`] that accepts repeated text fragments and
//! a closing `turn.end` marker (incremental streaming).  Every constructor
//! here is a pure transform: it returns the fully formed [`Message`]s and
//! leaves the sends to the transport-owning caller, which must transmit
//! them in the order produced, one fragment's chunks never interleaved with
//! another's.
//!
//! A call in a state that does not allow it fails with a protocol-misuse
//! error and constructs no message at all.

use vstd::prelude::*;
use vstd::utf8::*;
use crate::ProtocolError;
use crate::chunker::{Utf8Chunker, chunks_of, step_end, lemma_step_end_bounds, lemma_chunks_valid_utf8, lemma_chunks_concat};
use crate::json_text::{jstr, jbool, spec_obj, jstr_exec, jbool_exec, build_object, u64_to_dec, is_dec_string, lemma_dec_digits_is_dec_string};
use crate::message::{Data, DataView, Message, MessageView};
use crate::codec::{hview, string_from_utf8};

verus! {

/// The byte budget of one streamed text frame.
pub const MAX_TEXT_FRAME_BYTES: usize = 4096;

// ---------------------------------------------------------------------------
// Configuration
// ---------------------------------------------------------------------------
/// Read-only configuration of one synthesis operation, supplied by the
/// caller's configuration collaborator: device metadata as JSON object
/// text, the six metadata flags, and canonical format, language and voice
/// strings, with the language's default voice already looked up.
#[derive(Debug, Clone)]
pub struct Config {
    /// JSON object text describing the client system, for `speech.config`.
    pub system_json: String,
    /// JSON object text describing the operating system, for `speech.config`.
    pub os_json: String,
    pub bookmark_enabled: bool,
    pub punctuation_boundary_enabled: bool,
    pub sentence_boundary_enabled: bool,
    pub session_end_enabled: bool,
    pub viseme_enabled: bool,
    pub word_boundary_enabled: bool,
    /// Canonical string form of the configured audio output format.
    pub audio_format: String,
    pub auto_detect_language: bool,
    /// Canonical locale of the configured language, for example `en-US`.
    pub language: String,
    /// The configured language's default voice.
    pub default_voice: String,
    /// The explicitly configured voice, when any.
    pub voice: Option<String>,
}

/// Mathematical image of [`Config`].
pub struct ConfigView {
    pub system_json: Seq<char>,
    pub os_json: Seq<char>,
    pub bookmark_enabled: bool,
    pub punctuation_boundary_enabled: bool,
    pub sentence_boundary_enabled: bool,
    pub session_end_enabled: bool,
    pub viseme_enabled: bool,
    pub word_boundary_enabled: bool,
    pub audio_format: Seq<char>,
    pub auto_detect_language: bool,
    pub language: Seq<char>,
    pub default_voice: Seq<char>,
    pub voice: Option<Seq<char>>,
}

impl View for Config {
    type V = ConfigView;

    open spec fn view(&self) -> ConfigView {
        ConfigView {
            system_json: self.system_json@,
            os_json: self.os_json@,
            bookmark_enabled: self.bookmark_enabled,
            punctuation_boundary_enabled: self.punctuation_boundary_enabled,
            sentence_boundary_enabled: self.sentence_boundary_enabled,
            session_end_enabled: self.session_end_enabled,
            viseme_enabled: self.viseme_enabled,
            word_boundary_enabled: self.word_boundary_enabled,
            audio_format: self.audio_format@,
            auto_detect_language: self.auto_detect_language,
            language: self.language@,
            default_voice: self.default_voice@,
            voice: match self.voice {
                Some(ref v) => Some(v@),
                None => None,
            },
        }
    }
}

impl Config {
    /// A default configuration: empty device metadata, all metadata flags
    /// off, a common MP3 output format, and the `en-US` language with its
    /// usual default voice.
    pub fn new() -> (r: Self)
        ensures
            r@.system_json == "{}"@,
            r@.os_json == "{}"@,
            !r@.bookmark_enabled && !r@.punctuation_boundary_enabled
                && !r@.sentence_boundary_enabled && !r@.session_end_enabled && !r@.viseme_enabled
                && !r@.word_boundary_enabled,
            r@.audio_format == "audio-16khz-32kbitrate-mono-mp3"@,
            !r@.auto_detect_language,
            r@.language == "en-US"@,
            r@.default_voice == "en-US-JennyNeural"@,
            r@.voice is None,
    {
        Config {
            system_json: "{}".to_owned(),
            os_json: "{}".to_owned(),
            bookmark_enabled: false,
            punctuation_boundary_enabled: false,
            sentence_boundary_enabled: false,
            session_end_enabled: false,
            viseme_enabled: false,
            word_boundary_enabled: false,
            audio_format: "audio-16khz-32kbitrate-mono-mp3".to_owned(),
            auto_detect_language: false,
            language: "en-US".to_owned(),
            default_voice: "en-US-JennyNeural".to_owned(),
            voice: None,
        }
    }
}

// ---------------------------------------------------------------------------
// Per-request overrides
// ---------------------------------------------------------------------------
/// Optional per-request prosody and voice overrides.  Only fields the
/// caller actually set appear in the `synthesis.context` body.  The
/// temperature is carried as the decimal text of a JSON number.
#[derive(Debug, Clone, Default)]
pub struct StreamingRequest {
    pub pitch: Option<String>,
    pub rate: Option<String>,
    pub volume: Option<String>,
    pub style: Option<String>,
    /// Decimal text of the temperature, spliced as a JSON number.
    pub temperature: Option<String>,
    pub prefer_locales: Option<String>,
    pub custom_lexicon_url: Option<String>,
}

/// Mathematical image of [`StreamingRequest`].
pub struct StreamingRequestView {
    pub pitch: Option<Seq<char>>,
    pub rate: Option<Seq<char>>,
    pub volume: Option<Seq<char>>,
    pub style: Option<Seq<char>>,
    pub temperature: Option<Seq<char>>,
    pub prefer_locales: Option<Seq<char>>,
    pub custom_lexicon_url: Option<Seq<char>>,
}

impl View for StreamingRequest {
    type V = StreamingRequestView;

    open spec fn view(&self) -> StreamingRequestView {
        StreamingRequestView {
            pitch: match self.pitch {
                Some(ref v) => Some(v@),
                None => None,
            },
            rate: match self.rate {
                Some(ref v) => Some(v@),
                None => None,
            },
            volume: match self.volume {
                Some(ref v) => Some(v@),
                None => None,
            },
            style: match self.style {
                Some(ref v) => Some(v@),
                None => None,
            },
            temperature: match self.temperature {
                Some(ref v) => Some(v@),
                None => None,
            },
            prefer_locales: match self.prefer_locales {
                Some(ref v) => Some(v@),
                None => None,
            },
            custom_lexicon_url: match self.custom_lexicon_url {
                Some(ref v) => Some(v@),
                None => None,
            },
        }
    }
}

impl StreamingRequest {
    /// An override with no field set.
    pub fn new() -> (r: Self)
        ensures
            r@.pitch is None && r@.rate is None && r@.volume is None && r@.style is None
                && r@.temperature is None && r@.prefer_locales is None && r@.custom_lexicon_url
                is None,
    {
        StreamingRequest {
            pitch: None,
            rate: None,
            volume: None,
            style: None,
            temperature: None,
            prefer_locales: None,
            custom_lexicon_url: None,
        }
    }

    pub fn pitch(self, v: String) -> (r: Self)
        ensures
            r@ == (StreamingRequestView { pitch: Some(v@), ..self@ }),
    {
        StreamingRequest { pitch: Some(v), ..self }
    }

    pub fn rate(self, v: String) -> (r: Self)
        ensures
            r@ == (StreamingRequestView { rate: Some(v@), ..self@ }),
    {
        StreamingRequest { rate: Some(v), ..self }
    }

    pub fn volume(self, v: String) -> (r: Self)
        ensures
            r@ == (StreamingRequestView { volume: Some(v@), ..self@ }),
    {
        StreamingRequest { volume: Some(v), ..self }
    }

    pub fn style(self, v: String) -> (r: Self)
        ensures
            r@ == (StreamingRequestView { style: Some(v@), ..self@ }),
    {
        StreamingRequest { style: Some(v), ..self }
    }

    /// Sets the temperature from the decimal text of a JSON number.
    pub fn temperature(self, v: String) -> (r: Self)
        ensures
            r@ == (StreamingRequestView { temperature: Some(v@), ..self@ }),
    {
        StreamingRequest { temperature: Some(v), ..self }
    }

    pub fn prefer_locales(self, v: String) -> (r: Self)
        ensures
            r@ == (StreamingRequestView { prefer_locales: Some(v@), ..self@ }),
    {
        StreamingRequest { prefer_locales: Some(v), ..self }
    }

    pub fn custom_lexicon_url(self, v: String) -> (r: Self)
        ensures
            r@ == (StreamingRequestView { custom_lexicon_url: Some(v@), ..self@ }),
    {
        StreamingRequest { custom_lexicon_url: Some(v), ..self }
    }
}

// ---------------------------------------------------------------------------
// Body texts
// ---------------------------------------------------------------------------
/// The `speech.config` body: the device metadata under a `context` object.
pub open spec fn spec_speech_config_body(cfg: ConfigView) -> Seq<char> {
    spec_obj(
        seq![
            (
                "context"@,
                spec_obj(seq![("system"@, cfg.system_json), ("os"@, cfg.os_json)]),
            ),
        ],
    )
}

/// The fields of the optional `request` override object, in the
/// lexicographic order the reference serializer writes: only the fields
/// the caller set appear, and none is ever written as `null`.
pub open spec fn spec_request_fields(r: StreamingRequestView) -> Seq<(Seq<char>, Seq<char>)> {
    (match r.custom_lexicon_url {
        Some(v) => seq![("customLexiconUrl"@, jstr(v))],
        None => Seq::empty(),
    }) + (match r.pitch {
        Some(v) => seq![("pitch"@, jstr(v))],
        None => Seq::empty(),
    }) + (match r.prefer_locales {
        Some(v) => seq![("preferLocales"@, jstr(v))],
        None => Seq::empty(),
    }) + (match r.rate {
        Some(v) => seq![("rate"@, jstr(v))],
        None => Seq::empty(),
    }) + (match r.style {
        Some(v) => seq![("style"@, jstr(v))],
        None => Seq::empty(),
    }) + (match r.temperature {
        Some(v) => seq![("temperature"@, v)],
        None => Seq::empty(),
    }) + (match r.volume {
        Some(v) => seq![("volume"@, jstr(v))],
        None => Seq::empty(),
    })
}

/// The voice whose name the context announces: the configured voice, or
/// the language's default voice when none is set.
pub open spec fn spec_effective_voice(cfg: ConfigView) -> Seq<char> {
    match cfg.voice {
        Some(v) => v,
        None => cfg.default_voice,
    }
}

/// The `synthesis.context` body.  The `locale` field appears exactly when
/// language auto-detection is off, and the `request` object exactly when a
/// per-request override was supplied.
pub open spec fn spec_synthesis_context_body(cfg: ConfigView, req: Option<StreamingRequestView>) -> Seq<char> {
    let metadata = spec_obj(
        seq![
            ("bookmarkEnabled"@, jbool(cfg.bookmark_enabled)),
            ("punctuationBoundaryEnabled"@, jbool(cfg.punctuation_boundary_enabled)),
            ("sentenceBoundaryEnabled"@, jbool(cfg.sentence_boundary_enabled)),
            ("sessionEndEnabled"@, jbool(cfg.session_end_enabled)),
            ("visemeEnabled"@, jbool(cfg.viseme_enabled)),
            ("wordBoundaryEnabled"@, jbool(cfg.word_boundary_enabled)),
        ],
    );
    let audio = spec_obj(
        seq![("metadataOptions"@, metadata), ("outputFormat"@, jstr(cfg.audio_format))],
    );
    let language = spec_obj(
        if cfg.auto_detect_language {
            seq![("autoDetection"@, jbool(true))]
        } else {
            seq![("autoDetection"@, jbool(false)), ("locale"@, jstr(cfg.language))]
        },
    );
    let voice = spec_obj(seq![("name"@, jstr(spec_effective_voice(cfg)))]);
    let synthesis_fields = seq![("audio"@, audio), ("language"@, language)] + (match req {
        Some(r) => seq![("request"@, spec_obj(spec_request_fields(r)))],
        None => Seq::empty(),
    }) + seq![("voice"@, voice)];
    spec_obj(seq![("synthesis"@, spec_obj(synthesis_fields))])
}

/// Serializes the `speech.config` body for a configuration.
pub fn build_speech_config_body(cfg: &Config) -> (r: String)
    ensures
        r@ == spec_speech_config_body(cfg@),
{
    let mut inner: Vec<(String, String)> = Vec::new();
    inner.push(("system".to_owned(), cfg.system_json.clone()));
    inner.push(("os".to_owned(), cfg.os_json.clone()));
    let inner_obj = build_object(&inner);
    let mut outer: Vec<(String, String)> = Vec::new();
    outer.push(("context".to_owned(), inner_obj));
    let r = build_object(&outer);
    proof {
        assert(hview(inner@) =~= seq![("system"@, cfg@.system_json), ("os"@, cfg@.os_json)]);
        assert(hview(outer@) =~= seq![
            ("context"@, spec_obj(seq![("system"@, cfg@.system_json), ("os"@, cfg@.os_json)])),
        ]);
    }
    r
}

/// Serializes the `synthesis.context` body for a configuration and an
/// optional per-request override.
#[verifier::rlimit(100)]
#[verifier::spinoff_prover]
pub fn build_synthesis_context_body(cfg: &Config, req: Option<&StreamingRequest>) -> (r: String)
    ensures
        r@ == spec_synthesis_context_body(
            cfg@,
            match req {
                Some(q) => Some(q@),
                None => None,
            },
        ),
{
    let mut metadata: Vec<(String, String)> = Vec::new();
    metadata.push(("bookmarkEnabled".to_owned(), jbool_exec(cfg.bookmark_enabled).to_owned()));
    metadata.push(
        (
            "punctuationBoundaryEnabled".to_owned(),
            jbool_exec(cfg.punctuation_boundary_enabled).to_owned(),
        ),
    );
    metadata.push(
        (
            "sentenceBoundaryEnabled".to_owned(),
            jbool_exec(cfg.sentence_boundary_enabled).to_owned(),
        ),
    );
    metadata.push(("sessionEndEnabled".to_owned(), jbool_exec(cfg.session_end_enabled).to_owned()));
    metadata.push(("visemeEnabled".to_owned(), jbool_exec(cfg.viseme_enabled).to_owned()));
    metadata.push(
        ("wordBoundaryEnabled".to_owned(), jbool_exec(cfg.word_boundary_enabled).to_owned()),
    );
    let metadata_obj = build_object(&metadata);

    let mut audio: Vec<(String, String)> = Vec::new();
    audio.push(("metadataOptions".to_owned(), metadata_obj));
    audio.push(("outputFormat".to_owned(), jstr_exec(cfg.audio_format.as_str())));
    let audio_obj = build_object(&audio);

    let mut language: Vec<(String, String)> = Vec::new();
    language.push(("autoDetection".to_owned(), jbool_exec(cfg.auto_detect_language).to_owned()));
    if !cfg.auto_detect_language {
        language.push(("locale".to_owned(), jstr_exec(cfg.language.as_str())));
    }
    let language_obj = build_object(&language);

    let voice_name = match &cfg.voice {
        Some(v) => v.as_str(),
        None => cfg.default_voice.as_str(),
    };
    let mut voice: Vec<(String, String)> = Vec::new();
    voice.push(("name".to_owned(), jstr_exec(voice_name)));
    let voice_obj = build_object(&voice);

    let mut synthesis: Vec<(String, String)> = Vec::new();
    synthesis.push(("audio".to_owned(), audio_obj));
    synthesis.push(("language".to_owned(), language_obj));
    if let Some(q) = req {
        let mut fields: Vec<(String, String)> = Vec::new();
        if let Some(v) = &q.custom_lexicon_url {
            fields.push(("customLexiconUrl".to_owned(), jstr_exec(v.as_str())));
        }
        if let Some(v) = &q.pitch {
            fields.push(("pitch".to_owned(), jstr_exec(v.as_str())));
        }
        if let Some(v) = &q.prefer_locales {
            fields.push(("preferLocales".to_owned(), jstr_exec(v.as_str())));
        }
        if let Some(v) = &q.rate {
            fields.push(("rate".to_owned(), jstr_exec(v.as_str())));
        }
        if let Some(v) = &q.style {
            fields.push(("style".to_owned(), jstr_exec(v.as_str())));
        }
        if let Some(v) = &q.temperature {
            fields.push(("temperature".to_owned(), v.clone()));
        }
        if let Some(v) = &q.volume {
            fields.push(("volume".to_owned(), jstr_exec(v.as_str())));
        }
        proof {
            assert(hview(fields@) =~= spec_request_fields(q@));
        }
        let request_obj = build_object(&fields);
        synthesis.push(("request".to_owned(), request_obj));
    }
    synthesis.push(("voice".to_owned(), voice_obj));
    let synthesis_obj = build_object(&synthesis);

    let mut outer: Vec<(String, String)> = Vec::new();
    outer.push(("synthesis".to_owned(), synthesis_obj));
    let r = build_object(&outer);
    proof {
        let cv = cfg@;
        let rv = match req {
            Some(q) => Some(q@),
            None => None,
        };
        assert(hview(metadata@) =~= seq![
            ("bookmarkEnabled"@, jbool(cv.bookmark_enabled)),
            ("punctuationBoundaryEnabled"@, jbool(cv.punctuation_boundary_enabled)),
            ("sentenceBoundaryEnabled"@, jbool(cv.sentence_boundary_enabled)),
            ("sessionEndEnabled"@, jbool(cv.session_end_enabled)),
            ("visemeEnabled"@, jbool(cv.viseme_enabled)),
            ("wordBoundaryEnabled"@, jbool(cv.word_boundary_enabled)),
        ]);
        assert(hview(audio@) =~= seq![
            ("metadataOptions"@, metadata_obj@),
            ("outputFormat"@, jstr(cv.audio_format)),
        ]);
        assert(hview(language@) =~= if cv.auto_detect_language {
            seq![("autoDetection"@, jbool(true))]
        } else {
            seq![("autoDetection"@, jbool(false)), ("locale"@, jstr(cv.language))]
        });
        assert(hview(voice@) =~= seq![("name"@, jstr(spec_effective_voice(cv)))]);
        assert(hview(synthesis@) =~= seq![("audio"@, audio_obj@), ("language"@, language_obj@)]
            + (match rv {
            Some(r) => seq![("request"@, spec_obj(spec_request_fields(r)))],
            None => Seq::<(Seq<char>, Seq<char>)>::empty(),
        }) + seq![("voice"@, voice_obj@)]);
        assert(hview(outer@) =~= seq![("synthesis"@, synthesis_obj@)]);
        assert(r@ == spec_synthesis_context_body(cv, rv));
    }
    r
}

// ---------------------------------------------------------------------------
// Timestamps
// ---------------------------------------------------------------------------
/// Relies on std::time::SystemTime::now: the milliseconds since the Unix
/// epoch, zero for a clock set before the epoch.  No particular value is
/// promised — the clock is not a function of the program's inputs.
#[verifier::external_body]
fn now_unix_millis() -> u64 {
    match std::time::SystemTime::now().duration_since(std::time::UNIX_EPOCH) {
        Ok(d) => d.as_millis() as u64,
        Err(_) => 0,
    }
}

/// The wall-clock timestamp value carried by `X-Timestamp`: the decimal
/// text of the milliseconds since the Unix epoch.
fn timestamp_string() -> (r: String)
    ensures
        is_dec_string(r@),
{
    let ms = now_unix_millis();
    let s = u64_to_dec(ms);
    proof {
        lemma_dec_digits_is_dec_string(ms as nat);
    }
    s
}

// ---------------------------------------------------------------------------
// Message shapes
// ---------------------------------------------------------------------------
/// The `speech.config` message: note its distinct header order.
pub open spec fn spec_speech_config_message(rid: Seq<char>, ts: Seq<char>, cfg: ConfigView) -> MessageView {
    MessageView {
        id: rid,
        path: "speech.config"@,
        headers: seq![
            ("X-RequestId"@, rid),
            ("Path"@, "speech.config"@),
            ("Content-Type"@, "application/json"@),
            ("X-Timestamp"@, ts),
        ],
        data: DataView::Text(Some(spec_speech_config_body(cfg))),
    }
}

/// The `synthesis.context` message.
pub open spec fn spec_synthesis_context_message(
    rid: Seq<char>,
    ts: Seq<char>,
    cfg: ConfigView,
    req: Option<StreamingRequestView>,
) -> MessageView {
    MessageView {
        id: rid,
        path: "synthesis.context"@,
        headers: seq![
            ("Content-Type"@, "application/json"@),
            ("X-Timestamp"@, ts),
            ("X-RequestId"@, rid),
            ("Path"@, "synthesis.context"@),
        ],
        data: DataView::Text(Some(spec_synthesis_context_body(cfg, req))),
    }
}

/// The `ssml` message carrying the one-shot content.
pub open spec fn spec_ssml_message(rid: Seq<char>, ts: Seq<char>, ssml: Seq<char>) -> MessageView {
    MessageView {
        id: rid,
        path: "ssml"@,
        headers: seq![
            ("Content-Type"@, "application/ssml+xml"@),
            ("X-Timestamp"@, ts),
            ("X-RequestId"@, rid),
            ("Path"@, "ssml"@),
        ],
        data: DataView::Text(Some(ssml)),
    }
}

/// One streamed text message carrying a UTF-8-safe chunk.
pub open spec fn spec_text_message(rid: Seq<char>, ts: Seq<char>, body: Seq<char>) -> MessageView {
    MessageView {
        id: rid,
        path: "text"@,
        headers: seq![
            ("Content-Type"@, "text/plain; charset=utf-8"@),
            ("X-Timestamp"@, ts),
            ("X-RequestId"@, rid),
            ("Path"@, "text"@),
        ],
        data: DataView::Text(Some(body)),
    }
}

/// The `turn.end` marker: no content type and no body.
pub open spec fn spec_turn_end_message(rid: Seq<char>, ts: Seq<char>) -> MessageView {
    MessageView {
        id: rid,
        path: "turn.end"@,
        headers: seq![("X-Timestamp"@, ts), ("X-RequestId"@, rid), ("Path"@, "turn.end"@)],
        data: DataView::Text(None),
    }
}

/// `m` is a well-timestamped `text` message for `rid` carrying `body`.
pub open spec fn is_text_message(m: MessageView, rid: Seq<char>, body: Seq<char>) -> bool {
    exists|ts: Seq<char>| is_dec_string(ts) && m == #[trigger] spec_text_message(rid, ts, body)
}

// ---------------------------------------------------------------------------
// Message builders
// ---------------------------------------------------------------------------
/// Builds the `speech.config` message that opens every session.
pub fn create_speech_config_message(request_id: String, config: &Config) -> (m: Message)
    ensures
        exists|ts: Seq<char>|
            is_dec_string(ts) && m@ == #[trigger] spec_speech_config_message(
                request_id@,
                ts,
                config@,
            ),
{
    let ts = timestamp_string();
    let body = build_speech_config_body(config);
    let mut headers: Vec<(String, String)> = Vec::new();
    headers.push(("X-RequestId".to_owned(), request_id.clone()));
    headers.push(("Path".to_owned(), "speech.config".to_owned()));
    headers.push(("Content-Type".to_owned(), "application/json".to_owned()));
    headers.push(("X-Timestamp".to_owned(), ts.clone()));
    let m = Message {
        id: request_id,
        path: "speech.config".to_owned(),
        headers,
        data: Data::Text(Some(body)),
    };
    proof {
        assert(m@.headers =~= spec_speech_config_message(m@.id, ts@, config@).headers);
        assert(m@ == spec_speech_config_message(m@.id, ts@, config@));
    }
    m
}

/// Builds the `synthesis.context` message that follows `speech.config`.
pub fn create_synthesis_context_message(
    request_id: String,
    config: &Config,
    request: Option<&StreamingRequest>,
) -> (m: Message)
    ensures
        exists|ts: Seq<char>|
            #[trigger] is_dec_string(ts) && m@ == spec_synthesis_context_message(
                request_id@,
                ts,
                config@,
                match request {
                    Some(q) => Some(q@),
                    None => None,
                },
            ),
{
    let ts = timestamp_string();
    let body = build_synthesis_context_body(config, request);
    let mut headers: Vec<(String, String)> = Vec::new();
    headers.push(("Content-Type".to_owned(), "application/json".to_owned()));
    headers.push(("X-Timestamp".to_owned(), ts.clone()));
    headers.push(("X-RequestId".to_owned(), request_id.clone()));
    headers.push(("Path".to_owned(), "synthesis.context".to_owned()));
    let m = Message {
        id: request_id,
        path: "synthesis.context".to_owned(),
        headers,
        data: Data::Text(Some(body)),
    };
    proof {
        let rv = match request {
            Some(q) => Some(q@),
            None => None,
        };
        assert(m@.headers =~= spec_synthesis_context_message(m@.id, ts@, config@, rv).headers);
        assert(m@ == spec_synthesis_context_message(m@.id, ts@, config@, rv));
    }
    m
}

/// Builds the `ssml` content message of a one-shot synthesis.
pub fn create_ssml_message(request_id: String, ssml: &str) -> (m: Message)
    ensures
        exists|ts: Seq<char>|
            is_dec_string(ts) && m@ == #[trigger] spec_ssml_message(request_id@, ts, ssml@),
{
    let ts = timestamp_string();
    let mut headers: Vec<(String, String)> = Vec::new();
    headers.push(("Content-Type".to_owned(), "application/ssml+xml".to_owned()));
    headers.push(("X-Timestamp".to_owned(), ts.clone()));
    headers.push(("X-RequestId".to_owned(), request_id.clone()));
    headers.push(("Path".to_owned(), "ssml".to_owned()));
    let m = Message {
        id: request_id,
        path: "ssml".to_owned(),
        headers,
        data: Data::Text(Some(ssml.to_owned())),
    };
    proof {
        assert(m@.headers =~= spec_ssml_message(m@.id, ts@, ssml@).headers);
        assert(m@ == spec_ssml_message(m@.id, ts@, ssml@));
    }
    m
}

/// Builds one streamed `text` message carrying a UTF-8-safe chunk.
pub fn create_text_message(request_id: String, text: &str) -> (m: Message)
    ensures
        is_text_message(m@, request_id@, text@),
{
    let ts = timestamp_string();
    let mut headers: Vec<(String, String)> = Vec::new();
    headers.push(("Content-Type".to_owned(), "text/plain; charset=utf-8".to_owned()));
    headers.push(("X-Timestamp".to_owned(), ts.clone()));
    headers.push(("X-RequestId".to_owned(), request_id.clone()));
    headers.push(("Path".to_owned(), "text".to_owned()));
    let m = Message {
        id: request_id,
        path: "text".to_owned(),
        headers,
        data: Data::Text(Some(text.to_owned())),
    };
    proof {
        assert(m@.headers =~= spec_text_message(m@.id, ts@, text@).headers);
        assert(m@ == spec_text_message(m@.id, ts@, text@));
    }
    m
}

// ---------------------------------------------------------------------------
// The session state machine
// ---------------------------------------------------------------------------
/// Where a session stands in its message sequence.  A one-shot synthesis
/// runs `Idle`, `ConfigSent`, `ContextSent`, `ContentSent` and then only
/// consumes events; an incremental stream runs `Idle`, `ConfigSent`,
/// `ContextSent`, `Streaming` — the finishing step is tracked by the
/// [`TextStream`]'s own flag.  `Closed` ends either shape.
#[derive(Clone, Copy, Debug, PartialEq, Eq, Structural)]
pub enum SessionState {
    Idle,
    ConfigSent,
    ContextSent,
    ContentSent,
    Streaming,
    Closed,
}

/// One protocol sequence, bound to one request identifier.  Each method
/// constructs the next message of the sequence and advances the state;
/// called out of order it returns a protocol-misuse error, changes
/// nothing, and constructs no message.
#[derive(Debug)]
pub struct Session {
    /// The identifier every message of this operation carries, unchanged.
    pub request_id: String,
    /// The protocol position.
    pub state: SessionState,
}

impl Session {
    /// A fresh session for one request identifier.
    pub fn new(request_id: String) -> (r: Self)
        ensures
            r.request_id == request_id,
            r.state == SessionState::Idle,
    {
        Session { request_id, state: SessionState::Idle }
    }

    /// First step: the `speech.config` message.
    pub fn speech_config_message(&mut self, config: &Config) -> (r: Result<Message, ProtocolError>)
        ensures
            final(self).request_id == old(self).request_id,
            old(self).state != SessionState::Idle ==> (r matches Err(e) && e is ProtocolMisuse
                && final(self).state == old(self).state),
            old(self).state == SessionState::Idle ==> ({
                &&& final(self).state == SessionState::ConfigSent
                &&& r matches Ok(m) && exists|ts: Seq<char>|
                    #[trigger] is_dec_string(ts) && m@ == spec_speech_config_message(
                        old(self).request_id@,
                        ts,
                        config@,
                    )
            }),
    {
        if !matches!(self.state, SessionState::Idle) {
            return Err(ProtocolError::ProtocolMisuse);
        }
        self.state = SessionState::ConfigSent;
        Ok(create_speech_config_message(self.request_id.clone(), config))
    }

    /// Second step: the `synthesis.context` message.
    pub fn synthesis_context_message(
        &mut self,
        config: &Config,
        request: Option<&StreamingRequest>,
    ) -> (r: Result<Message, ProtocolError>)
        ensures
            final(self).request_id == old(self).request_id,
            old(self).state != SessionState::ConfigSent ==> (r matches Err(e) && e
                is ProtocolMisuse && final(self).state == old(self).state),
            old(self).state == SessionState::ConfigSent ==> ({
                &&& final(self).state == SessionState::ContextSent
                &&& r matches Ok(m) && exists|ts: Seq<char>|
                    #[trigger] is_dec_string(ts) && m@ == spec_synthesis_context_message(
                        old(self).request_id@,
                        ts,
                        config@,
                        match request {
                            Some(q) => Some(q@),
                            None => None,
                        },
                    )
            }),
    {
        if !matches!(self.state, SessionState::ConfigSent) {
            return Err(ProtocolError::ProtocolMisuse);
        }
        self.state = SessionState::ContextSent;
        Ok(create_synthesis_context_message(self.request_id.clone(), config, request))
    }

    /// One-shot content: the `ssml` message.  After it no further write is
    /// accepted; the session only consumes events.
    pub fn ssml_message(&mut self, ssml: &str) -> (r: Result<Message, ProtocolError>)
        ensures
            final(self).request_id == old(self).request_id,
            old(self).state != SessionState::ContextSent ==> (r matches Err(e) && e
                is ProtocolMisuse && final(self).state == old(self).state),
            old(self).state == SessionState::ContextSent ==> ({
                &&& final(self).state == SessionState::ContentSent
                &&& r matches Ok(m) && exists|ts: Seq<char>|
                    #[trigger] is_dec_string(ts) && m@ == spec_ssml_message(
                        old(self).request_id@,
                        ts,
                        ssml@,
                    )
            }),
    {
        if !matches!(self.state, SessionState::ContextSent) {
            return Err(ProtocolError::ProtocolMisuse);
        }
        self.state = SessionState::ContentSent;
        Ok(create_ssml_message(self.request_id.clone(), ssml))
    }

    /// One-shot content for a caller that supplied plain text: the
    /// prosody options already stand in the context, so a single `text`
    /// content message follows it.
    pub fn text_message(&mut self, text: &str) -> (r: Result<Message, ProtocolError>)
        ensures
            final(self).request_id == old(self).request_id,
            old(self).state != SessionState::ContextSent ==> (r matches Err(e) && e
                is ProtocolMisuse && final(self).state == old(self).state),
            old(self).state == SessionState::ContextSent ==> ({
                &&& final(self).state == SessionState::ContentSent
                &&& r matches Ok(m) && is_text_message(m@, old(self).request_id@, text@)
            }),
    {
        if !matches!(self.state, SessionState::ContextSent) {
            return Err(ProtocolError::ProtocolMisuse);
        }
        self.state = SessionState::ContentSent;
        Ok(create_text_message(self.request_id.clone(), text))
    }

    /// Streaming content: hands out the write handle for repeated text
    /// fragments.
    pub fn text_stream(&mut self) -> (r: Result<TextStream, ProtocolError>)
        ensures
            final(self).request_id == old(self).request_id,
            old(self).state != SessionState::ContextSent ==> (r matches Err(e) && e
                is ProtocolMisuse && final(self).state == old(self).state),
            old(self).state == SessionState::ContextSent ==> ({
                &&& final(self).state == SessionState::Streaming
                &&& r matches Ok(t) && t.request_id@ == old(self).request_id@ && !t.finished
            }),
    {
        if !matches!(self.state, SessionState::ContextSent) {
            return Err(ProtocolError::ProtocolMisuse);
        }
        self.state = SessionState::Streaming;
        Ok(TextStream::new(self.request_id.clone()))
    }

    /// Ends the session: any further step is a misuse.
    pub fn close(&mut self)
        ensures
            final(self).request_id == old(self).request_id,
            final(self).state == SessionState::Closed,
    {
        self.state = SessionState::Closed;
    }
}

// ---------------------------------------------------------------------------
// The streaming write handle
// ---------------------------------------------------------------------------
/// The write handle of an incremental text stream.  `write` turns one text
/// fragment into the ordered list of `text` messages that carry its
/// UTF-8-safe chunks; `finish` produces the closing `turn.end` marker.
/// After `finish`, both fail with a protocol-misuse error and produce no
/// message.
#[derive(Debug)]
pub struct TextStream {
    /// The identifier every message of this stream carries.
    pub request_id: String,
    /// Whether `finish` has produced the `turn.end` marker.
    pub finished: bool,
}

impl TextStream {
    /// A fresh write handle for one request identifier.
    pub fn new(request_id: String) -> (r: Self)
        ensures
            r.request_id == request_id,
            !r.finished,
    {
        TextStream { request_id, finished: false }
    }

    /// Turns one text fragment into `text` messages, one per UTF-8-safe
    /// chunk of its byte encoding, in order.  The messages must be sent in
    /// that order, before any later fragment's.  On a stream that was
    /// already finished, fails with a protocol-misuse error instead.  For
    /// a live stream this never fails: every chunk of valid UTF-8 text is
    /// itself valid UTF-8, so the encoding-failure case is unreachable.
    pub fn write(&mut self, text: &str) -> (r: Result<Vec<Message>, ProtocolError>)
        ensures
            *final(self) == *old(self),
            old(self).finished ==> (r matches Err(e) && e is ProtocolMisuse),
            !old(self).finished ==> (r matches Ok(msgs) && {
                let cs = chunks_of(encode_utf8(text@), 0, MAX_TEXT_FRAME_BYTES as int);
                &&& msgs@.len() == cs.len()
                &&& forall|i: int|
                    0 <= i < cs.len() ==> is_text_message(
                        #[trigger] msgs@[i]@,
                        old(self).request_id@,
                        decode_utf8(cs[i]),
                    )
            }),
    {
        if self.finished {
            return Err(ProtocolError::ProtocolMisuse);
        }
        let bytes = text.as_bytes_vec();
        let ghost s = bytes@;
        let ghost lim = MAX_TEXT_FRAME_BYTES as int;
        proof {
            encode_utf8_valid_utf8(text@);
            lemma_chunks_valid_utf8(s, lim);
            assert(chunks_of(s, 0, lim).skip(0) =~= chunks_of(s, 0, lim));
        }
        let mut chunker = Utf8Chunker::new(bytes.as_slice(), MAX_TEXT_FRAME_BYTES);
        let mut msgs: Vec<Message> = Vec::new();
        loop
            invariant
                self.finished == false,
                1 <= lim,
                lim == MAX_TEXT_FRAME_BYTES as int,
                s == encode_utf8(text@),
                chunker.wf(),
                chunker.data@ == s,
                chunker.limit == MAX_TEXT_FRAME_BYTES,
                valid_utf8(s),
                msgs@.len() + chunks_of(s, chunker.offset as int, lim).len() == chunks_of(
                    s,
                    0,
                    lim,
                ).len(),
                chunks_of(s, 0, lim).skip(msgs@.len() as int) == chunks_of(
                    s,
                    chunker.offset as int,
                    lim,
                ),
                forall|i: int|
                    0 <= i < msgs@.len() ==> is_text_message(
                        #[trigger] msgs@[i]@,
                        self.request_id@,
                        decode_utf8(chunks_of(s, 0, lim)[i]),
                    ),
                forall|i: int| 0 <= i < chunks_of(s, 0, lim).len() ==> valid_utf8(
                    #[trigger] chunks_of(s, 0, lim)[i],
                ),
            decreases s.len() - chunker.offset,
        {
            let ghost off = chunker.offset as int;
            let ghost emitted = msgs@.len() as int;
            let chunk = match chunker.next() {
                None => {
                    proof {
                        assert(off <= s.len());
                        assert(off >= s.len());
                        assert(chunks_of(s, off, lim).len() == 0);
                    }
                    return Ok(msgs);
                },
                Some(c) => c,
            };
            proof {
                lemma_step_end_bounds(s, off, lim);
                let e = step_end(s, off, lim);
                assert(chunks_of(s, off, lim) == seq![s.subrange(off, e)] + chunks_of(
                    s,
                    e,
                    lim,
                ));
                assert(chunks_of(s, off, lim)[0] == chunk@);
                assert(chunks_of(s, 0, lim)[emitted] == chunks_of(s, off, lim)[0]);
                assert(valid_utf8(chunk@));
                assert(chunks_of(s, 0, lim).skip(emitted + 1) =~= chunks_of(
                    s,
                    off,
                    lim,
                ).drop_first());
                assert(chunks_of(s, off, lim).drop_first() =~= chunks_of(s, e, lim));
            }
            let body = match string_from_utf8(chunk) {
                None => {
                    // unreachable: the chunk was just shown to be valid UTF-8
                    proof {
                        assert(false);
                    }
                    return Err(ProtocolError::Encoding);
                },
                Some(b) => b,
            };
            let m = create_text_message(self.request_id.clone(), body.as_str());
            msgs.push(m);
        }
    }

    /// Produces the closing `turn.end` marker and finishes the stream; a
    /// second call fails with a protocol-misuse error and produces no
    /// message.
    pub fn finish(&mut self) -> (r: Result<Message, ProtocolError>)
        ensures
            final(self).request_id == old(self).request_id,
            old(self).finished ==> (r matches Err(e) && e is ProtocolMisuse
                && final(self).finished),
            !old(self).finished ==> ({
                &&& final(self).finished
                &&& r matches Ok(m) && exists|ts: Seq<char>|
                    #[trigger] is_dec_string(ts) && m@ == spec_turn_end_message(
                        old(self).request_id@,
                        ts,
                    )
            }),
    {
        if self.finished {
            return Err(ProtocolError::ProtocolMisuse);
        }
        self.finished = true;
        Ok(create_turn_end_message(self.request_id.clone()))
    }
}

/// Decimal digit strings ride a header line untouched: digits are neither
/// line breaks nor part of a colon-space separator.
proof fn lemma_dec_string_wf_value(ts: Seq<char>)
    requires
        is_dec_string(ts),
    ensures
        crate::codec::wf_header_value(ts),
{
    assert(forall|i: int| 0 <= i < ts.len() ==> ts[i] != '\r' && ts[i] != '\n');
    assert forall|i: int| !crate::codec::sep_at(ts, i) by {
        if 0 <= i && i + 2 <= ts.len() {
            assert('0' <= ts[i] <= '9');
        }
    }
}

/// Law: a `text` message round-trips through the frame codec.  For every
/// request id the header-line format can carry — free of carriage
/// returns, line feeds and colon-space pairs — and every body text,
/// decoding the encoding of the message's headers and body returns the
/// same header list, in the same order, and the same body; and the
/// required headers carry the id and the `text` path, so the decoder owes
/// a message rather than an error.
pub proof fn lemma_text_message_round_trip(
    m: MessageView,
    rid: Seq<char>,
    ts: Seq<char>,
    body: Seq<char>,
)
    requires
        m == spec_text_message(rid, ts, body),
        is_dec_string(ts),
        crate::codec::wf_header_value(rid),
    ensures
        crate::codec::spec_parse_frame(crate::codec::spec_encode(m.headers, Some(body)))
            == Some((m.headers, Some(body))),
        crate::message::spec_get_header(m.headers, "X-RequestId"@) == Some(rid),
        crate::message::spec_get_header(m.headers, "Path"@) == Some("text"@),
        m.data == DataView::Text(Some(body)),
{
    reveal_strlit("Content-Type");
    reveal_strlit("text/plain; charset=utf-8");
    reveal_strlit("X-Timestamp");
    reveal_strlit("X-RequestId");
    reveal_strlit("Path");
    reveal_strlit("text");
    let hs = m.headers;
    lemma_dec_string_wf_value(ts);
    assert(crate::codec::wf_header_name("Content-Type"@));
    assert(crate::codec::wf_header_name("X-Timestamp"@));
    assert(crate::codec::wf_header_name("X-RequestId"@));
    assert(crate::codec::wf_header_name("Path"@));
    assert(crate::codec::wf_header_value("text/plain; charset=utf-8"@)) by {
        assert forall|i: int| !crate::codec::sep_at("text/plain; charset=utf-8"@, i) by {
            if 0 <= i && i + 2 <= "text/plain; charset=utf-8"@.len() {
                assert("text/plain; charset=utf-8"@[i] != ':');
            }
        }
    }
    assert(crate::codec::wf_header_value("text"@)) by {
        assert forall|i: int| !crate::codec::sep_at("text"@, i) by {
            if 0 <= i && i + 2 <= "text"@.len() {
                assert("text"@[i] != ':');
            }
        }
    }
    assert(crate::codec::wf_headers(hs)) by {
        assert(hs[0] == ("Content-Type"@, "text/plain; charset=utf-8"@));
        assert(hs[1] == ("X-Timestamp"@, ts));
        assert(hs[2] == ("X-RequestId"@, rid));
        assert(hs[3] == ("Path"@, "text"@));
    }
    crate::codec::lemma_encode_decode_round_trip(hs, Some(body));
    assert(crate::message::spec_get_header(hs, "X-RequestId"@) == Some(rid)) by {
        reveal_with_fuel(crate::message::spec_get_header, 5);
        assert("Content-Type"@ != "X-RequestId"@);
        assert("X-Timestamp"@ != "X-RequestId"@) by {
            assert("X-Timestamp"@[2] == 'T');
            assert("X-RequestId"@[2] == 'R');
        }
        assert(hs.drop_first() =~= seq![("X-Timestamp"@, ts), ("X-RequestId"@, rid), ("Path"@, "text"@)]);
        assert(hs.drop_first().drop_first() =~= seq![("X-RequestId"@, rid), ("Path"@, "text"@)]);
    }
    assert(crate::message::spec_get_header(hs, "Path"@) == Some("text"@)) by {
        reveal_with_fuel(crate::message::spec_get_header, 5);
        assert("Content-Type"@ != "Path"@);
        assert("X-Timestamp"@ != "Path"@);
        assert("X-RequestId"@ != "Path"@);
        assert(hs.drop_first() =~= seq![("X-Timestamp"@, ts), ("X-RequestId"@, rid), ("Path"@, "text"@)]);
        assert(hs.drop_first().drop_first() =~= seq![("X-RequestId"@, rid), ("Path"@, "text"@)]);
        assert(hs.drop_first().drop_first().drop_first() =~= seq![("Path"@, "text"@)]);
    }
}

/// The bytes a message's text body stands for on the wire.
pub open spec fn spec_body_bytes(m: MessageView) -> Seq<u8> {
    match m.data {
        DataView::Text(Some(b)) => encode_utf8(b),
        DataView::Text(None) => Seq::empty(),
        DataView::Binary(p) => p,
    }
}

/// Law: the bodies of the messages that [`TextStream::write`] produces for
/// one fragment, concatenated in the order produced, reproduce the
/// fragment's UTF-8 encoding exactly — nothing is lost, duplicated or
/// reordered by chunking.  The premises are precisely what `write`
/// ensures of its output.
pub proof fn lemma_write_reassembles_text(msgs: Seq<MessageView>, rid: Seq<char>, text: Seq<char>)
    requires
        msgs.len() == chunks_of(encode_utf8(text), 0, MAX_TEXT_FRAME_BYTES as int).len(),
        forall|i: int|
            0 <= i < msgs.len() ==> is_text_message(
                #[trigger] msgs[i],
                rid,
                decode_utf8(chunks_of(encode_utf8(text), 0, MAX_TEXT_FRAME_BYTES as int)[i]),
            ),
    ensures
        msgs.map_values(|m: MessageView| spec_body_bytes(m)).flatten() == encode_utf8(text),
{
    let s = encode_utf8(text);
    let lim = MAX_TEXT_FRAME_BYTES as int;
    let cs = chunks_of(s, 0, lim);
    encode_utf8_valid_utf8(text);
    lemma_chunks_valid_utf8(s, lim);
    broadcast use decode_utf8_encode_utf8;

    assert forall|i: int| 0 <= i < msgs.len() implies msgs.map_values(
        |m: MessageView| spec_body_bytes(m),
    )[i] == cs[i] by {
        let ts = choose|ts: Seq<char>|
            is_dec_string(ts) && msgs[i] == spec_text_message(rid, ts, decode_utf8(cs[i]));
        assert(msgs[i].data == DataView::Text(Some(decode_utf8(cs[i]))));
        assert(valid_utf8(cs[i]));
        assert(encode_utf8(decode_utf8(cs[i])) == cs[i]);
    }
    assert(msgs.map_values(|m: MessageView| spec_body_bytes(m)) =~= cs);
    lemma_chunks_concat(s, lim);
}

/// Builds the `turn.end` marker that closes an incremental stream.
pub fn create_turn_end_message(request_id: String) -> (m: Message)
    ensures
        exists|ts: Seq<char>|
            is_dec_string(ts) && m@ == #[trigger] spec_turn_end_message(request_id@, ts),
{
    let ts = timestamp_string();
    let mut headers: Vec<(String, String)> = Vec::new();
    headers.push(("X-Timestamp".to_owned(), ts.clone()));
    headers.push(("X-RequestId".to_owned(), request_id.clone()));
    headers.push(("Path".to_owned(), "turn.end".to_owned()));
    let m = Message { id: request_id, path: "turn.end".to_owned(), headers, data: Data::Text(None) };
    proof {
        assert(m@.headers =~= spec_turn_end_message(m@.id, ts@).headers);
        assert(m@ == spec_turn_end_message(m@.id, ts@));
    }
    m
}

} // verus!
