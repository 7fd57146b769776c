//! Projection of received frames into typed events.
//!
//! Each decoded message is mapped to one [`Event`], tagged with the
//! originating request identifier, or to a frame-parse failure when the
//! frame is unrecognized or malformed.  [`EventReader`] sequences the
//! projection: events are produced in arrival order, the sequence is
//! finite — it ends when the transport closes or the session-end marker
//! arrives — and a transport failure yields exactly one failure result
//! before the end.

use vstd::prelude::*;
use crate::ProtocolError;
use crate::codec::{decode_text_frame, decode_binary_frame, spec_parse_frame, spec_parse_binary, decoded_message};
use crate::message::{Data, DataView, Message, MessageView, spec_get_header, spec_has_header, str_eq};

verus! {

/// One typed event of a synthesis operation.
#[derive(Debug)]
pub enum Event {
    /// A chunk of synthesized audio.
    Audio { request_id: String, payload: Vec<u8> },
    /// A boundary or bookmark marker (`audio.metadata`).
    AudioMetadata { request_id: String, body: Option<String> },
    /// The service opened the reply turn.
    TurnStart { request_id: String, body: Option<String> },
    /// The session-end marker: the reply turn is complete.
    TurnEnd { request_id: String },
    /// A service response header message.
    Response { request_id: String, body: Option<String> },
}

/// Whether a decoded message is one this projection recognizes.
pub open spec fn spec_recognized(m: MessageView) -> bool {
    match m.data {
        DataView::Binary(_) => m.path == "audio"@,
        DataView::Text(_) => m.path == "turn.start"@ || m.path == "turn.end"@ || m.path
            == "response"@ || m.path == "audio.metadata"@,
    }
}

/// The event `e` is the faithful projection of the message `m`.
pub open spec fn spec_event_for(e: Event, m: MessageView) -> bool {
    match e {
        Event::Audio { request_id, payload } => m.path == "audio"@ && request_id@ == m.id
            && m.data == DataView::Binary(payload@),
        Event::AudioMetadata { request_id, body } => m.path == "audio.metadata"@ && request_id@
            == m.id && m.data == DataView::Text(
            match body {
                Some(b) => Some(b@),
                None => None,
            },
        ),
        Event::TurnStart { request_id, body } => m.path == "turn.start"@ && request_id@ == m.id
            && m.data == DataView::Text(
            match body {
                Some(b) => Some(b@),
                None => None,
            },
        ),
        Event::TurnEnd { request_id } => m.path == "turn.end"@ && request_id@ == m.id,
        Event::Response { request_id, body } => m.path == "response"@ && request_id@ == m.id
            && m.data == DataView::Text(
            match body {
                Some(b) => Some(b@),
                None => None,
            },
        ),
    }
}

/// Maps one decoded message to its event; a message whose path this
/// projection does not recognize is a frame-parse failure.
pub fn project_message(m: Message) -> (r: Result<Event, ProtocolError>)
    ensures
        spec_recognized(m@) ==> (r matches Ok(e) && spec_event_for(e, m@)),
        !spec_recognized(m@) ==> (r matches Err(e) && e is FrameParse),
{
    let Message { id, path, headers: _, data } = m;
    match data {
        Data::Binary(payload) => {
            if str_eq(path.as_str(), "audio") {
                Ok(Event::Audio { request_id: id, payload })
            } else {
                Err(ProtocolError::FrameParse)
            }
        },
        Data::Text(body) => {
            if str_eq(path.as_str(), "turn.start") {
                Ok(Event::TurnStart { request_id: id, body })
            } else if str_eq(path.as_str(), "turn.end") {
                Ok(Event::TurnEnd { request_id: id })
            } else if str_eq(path.as_str(), "response") {
                Ok(Event::Response { request_id: id, body })
            } else if str_eq(path.as_str(), "audio.metadata") {
                Ok(Event::AudioMetadata { request_id: id, body })
            } else {
                Err(ProtocolError::FrameParse)
            }
        },
    }
}

/// What the transport hands the reader for one step: a received frame, a
/// transport failure, or the end of the connection.
#[derive(Debug)]
pub enum TransportSignal {
    /// A received text frame.
    Text(String),
    /// A received binary frame.
    Binary(Vec<u8>),
    /// A transport-level failure, carried verbatim as text.
    Failure(String),
    /// The transport closed.
    Closed,
}

/// The finite, ordered event sequence of one session.  The caller feeds
/// each transport signal in arrival order; `step` yields `Some` result per
/// frame and `None` once the sequence has ended.  The sequence ends on the
/// transport's close, after one transport-failure result, after a decode
/// or projection failure, and after the session-end marker; it never
/// yields again past its end.
#[derive(Debug)]
pub struct EventReader {
    /// Whether the sequence has ended.
    pub ended: bool,
}

/// The message that a frame with header list `hs` and body `data` decodes
/// to, assuming the two required headers are present: `decoded_message`
/// determines it uniquely.
pub open spec fn spec_decoded_view(hs: Seq<(Seq<char>, Seq<char>)>, data: DataView) -> MessageView {
    MessageView {
        id: spec_get_header(hs, "X-RequestId"@)->0,
        path: spec_get_header(hs, "Path"@)->0,
        headers: hs,
        data,
    }
}

/// The step result `r` is exactly what decoding and projecting one
/// received text frame yields: on an unparseable frame or one missing a
/// required header, a frame-parse failure; on a recognized message, its
/// event — a failure is allowed there only when the decoded message is
/// not one the projection recognizes.
pub open spec fn spec_text_step(frame: Seq<char>, r: Result<Event, ProtocolError>) -> bool {
    match spec_parse_frame(frame) {
        None => r matches Err(e) && e is FrameParse,
        Some(p) => {
            if !(spec_has_header(p.0, "X-RequestId"@) && spec_has_header(p.0, "Path"@)) {
                r matches Err(e) && e is FrameParse
            } else {
                let m = spec_decoded_view(p.0, DataView::Text(p.1));
                match r {
                    Ok(e) => spec_event_for(e, m),
                    Err(e) => e is FrameParse && !spec_recognized(m),
                }
            }
        },
    }
}

/// The step result `r` is exactly what decoding and projecting one
/// received binary frame yields, as in [`spec_text_step`].
pub open spec fn spec_binary_step(bytes: Seq<u8>, r: Result<Event, ProtocolError>) -> bool {
    match spec_parse_binary(bytes) {
        None => r matches Err(e) && e is FrameParse,
        Some(p) => {
            if !(spec_has_header(p.0, "X-RequestId"@) && spec_has_header(p.0, "Path"@)) {
                r matches Err(e) && e is FrameParse
            } else {
                let m = spec_decoded_view(p.0, DataView::Binary(p.1));
                match r {
                    Ok(e) => spec_event_for(e, m),
                    Err(e) => e is FrameParse && !spec_recognized(m),
                }
            }
        },
    }
}

impl EventReader {
    /// A fresh reader whose sequence has not ended.
    pub fn new() -> (r: Self)
        ensures
            !r.ended,
    {
        EventReader { ended: false }
    }

    /// Consumes one transport signal and yields the next element of the
    /// event sequence, or `None` once the sequence has ended.
    pub fn step(&mut self, signal: TransportSignal) -> (r: Option<Result<Event, ProtocolError>>)
        ensures
            old(self).ended ==> (r is None && final(self).ended),
            !old(self).ended ==> match signal {
                TransportSignal::Closed => r is None && final(self).ended,
                TransportSignal::Failure(msg) => ({
                    &&& r matches Some(res)
                    &&& res matches Err(e) && e matches ProtocolError::Transport(t) && t@ == msg@
                    &&& final(self).ended
                }),
                TransportSignal::Text(frame) => ({
                    &&& r matches Some(res) && spec_text_step(frame@, res)
                    &&& final(self).ended == !(r matches Some(res2) && res2 matches Ok(e) && !(
                    e matches Event::TurnEnd { .. }))
                }),
                TransportSignal::Binary(bytes) => ({
                    &&& r matches Some(res) && spec_binary_step(bytes@, res)
                    &&& final(self).ended == !(r matches Some(res2) && res2 matches Ok(e) && !(
                    e matches Event::TurnEnd { .. }))
                }),
            },
    {
        if self.ended {
            return None;
        }
        match signal {
            TransportSignal::Closed => {
                self.ended = true;
                None
            },
            TransportSignal::Failure(msg) => {
                self.ended = true;
                Some(Err(ProtocolError::Transport(msg)))
            },
            TransportSignal::Text(frame) => {
                let res = match decode_text_frame(frame.as_str()) {
                    Err(e) => {
                        self.ended = true;
                        return Some(Err(e));
                    },
                    Ok(m) => project_message(m),
                };
                match &res {
                    Err(_) => {
                        self.ended = true;
                    },
                    Ok(e) => {
                        if matches!(e, Event::TurnEnd { .. }) {
                            self.ended = true;
                        }
                    },
                }
                Some(res)
            },
            TransportSignal::Binary(bytes) => {
                let res = match decode_binary_frame(&bytes) {
                    Err(e) => {
                        self.ended = true;
                        return Some(Err(e));
                    },
                    Ok(m) => project_message(m),
                };
                match &res {
                    Err(_) => {
                        self.ended = true;
                    },
                    Ok(e) => {
                        if matches!(e, Event::TurnEnd { .. }) {
                            self.ended = true;
                        }
                    },
                }
                Some(res)
            },
        }
    }
}

} // verus!
