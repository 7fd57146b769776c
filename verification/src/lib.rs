//! Protocol layer of a real-time text-to-speech client.
//!
//! The crate turns application-level synthesis calls into a sequence of
//! framed, header-tagged messages for a bidirectional socket, and turns the
//! service's replies into a typed event sequence.  It provides:
//!
//! * a frame codec for the `Name: Value` header-block-plus-body wire format
//!   ([`codec`], [`message`]);
//! * a UTF-8-safe chunker that splits text into bounded byte slices without
//!   splitting a multi-byte code point ([`chunker`]);
//! * the stateful session protocol that sequences configuration, context and
//!   content messages for one request identifier ([`session`]);
//! * the projection of received frames into typed events ([`events`]).
//!
//! Transport (socket connection, TLS, the actual sends and receives) is the
//! caller's business; every function here is a pure transform over plain
//! values.

use vstd::prelude::*;

pub mod auth;
pub mod chunker;
pub mod codec;
pub mod events;
pub mod json_text;
pub mod message;
pub mod session;

verus! {

/// Failure taxonomy of the protocol layer.
///
/// * `FrameParse`: a received frame had a malformed header block, a
///   non-UTF-8 header block, or a missing required header.
/// * `ProtocolMisuse`: an operation was called in a session state that does
///   not allow it (for example `write` after `finish`).
/// * `Transport`: a failure reported by the transport collaborator,
///   carried verbatim as text.
/// * `Encoding`: text that cannot be represented as UTF-8 after chunking;
///   an internal-invariant violation that verified paths prove unreachable.
#[derive(Debug, Clone)]
pub enum ProtocolError {
    FrameParse,
    ProtocolMisuse,
    Transport(String),
    Encoding,
}

impl ProtocolError {
    /// Short human-readable description of the error kind.
    pub fn describe(&self) -> (r: &'static str)
        ensures
            r@ == self.spec_describe(),
    {
        match self {
            ProtocolError::FrameParse => "frame parse failure",
            ProtocolError::ProtocolMisuse => "protocol misuse",
            ProtocolError::Transport(_) => "transport failure",
            ProtocolError::Encoding => "encoding failure",
        }
    }

    /// What `describe` returns for each variant.
    pub open spec fn spec_describe(&self) -> Seq<char> {
        match self {
            ProtocolError::FrameParse => "frame parse failure"@,
            ProtocolError::ProtocolMisuse => "protocol misuse"@,
            ProtocolError::Transport(_) => "transport failure"@,
            ProtocolError::Encoding => "encoding failure"@,
        }
    }
}

} // verus!
