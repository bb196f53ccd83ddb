//! One connection's lifecycle as a pure state machine.
//!
//! States run `Handshaking` to `Established` to `Closed` (terminal), with
//! `Handshaking` dropping straight to `Closed` on any validation failure.
//! Each step takes the current state and one transport event and decides
//! the next state, an optional reply to send, and whether to shut the
//! transport down; the surrounding I/O loop performs those actions. A step
//! depends only on its own arguments, so concurrent sessions cannot
//! interfere with one another.

use vstd::prelude::*;
use vstd::string::StringSliceAdditionalSpecFns;
use crate::error::{message_spec, ProtocolError, ProtocolErrorModel};
use crate::server::{validate_handshake, validate_handshake_spec};
use crate::text::append_bytes;

verus! {

/// Where one connection stands.
#[derive(Clone, Copy, Debug, PartialEq, Eq, Structural)]
pub enum SessionState {
    /// Accepted; the opening handshake has not completed yet.
    Handshaking,
    /// Handshake done; arbitrary data is read and echoed back.
    Established,
    /// Terminal; nothing more is read or written.
    Closed,
}

/// One transport event handed to the state machine by the I/O loop.
#[derive(Clone, Debug, PartialEq, Eq)]
pub enum SessionEvent {
    /// A read delivered these bytes, already checked to be valid UTF-8.
    Received(Vec<u8>),
    /// A read delivered bytes that were not valid UTF-8.
    TextDecodeFailed,
    /// The peer disconnected or the transport failed.
    Disconnected,
}

/// What one step decides: the next state, an optional reply to write to
/// the peer, and whether to shut the transport down.
#[derive(Clone, Debug, PartialEq, Eq)]
pub struct SessionStep {
    pub state: SessionState,
    pub reply: Option<Vec<u8>>,
    pub shutdown: bool,
}

/// The `101 Switching Protocols` response carrying the accept key.
pub open spec fn success_response_spec(key: Seq<u8>) -> Seq<u8> {
    "HTTP/1.1 101 Switching Protocols\r\nUpgrade: websocket\r\nConnection: Upgrade\r\nSec-WebSocket-Accept: ".spec_bytes()
        + key + "\r\n\r\n".spec_bytes()
}

/// The `400 Bad Request` response whose body is the failure reason.
pub open spec fn failure_response_spec(e: ProtocolErrorModel) -> Seq<u8> {
    "HTTP/1.1 400 Bad Request\r\n\r\n".spec_bytes() + message_spec(e)
}

/// Formats the `101 Switching Protocols` response for an accept key.
pub fn success_response(key: &[u8]) -> (r: Vec<u8>)
    ensures
        r@ == success_response_spec(key@),
{
    let mut out: Vec<u8> = Vec::new();
    append_bytes(
        &mut out,
        "HTTP/1.1 101 Switching Protocols\r\nUpgrade: websocket\r\nConnection: Upgrade\r\nSec-WebSocket-Accept: ".as_bytes(),
    );
    append_bytes(&mut out, key);
    append_bytes(&mut out, "\r\n\r\n".as_bytes());
    proof {
        assert(out@ =~= success_response_spec(key@));
    }
    out
}

/// Formats the `400 Bad Request` response for a validation failure.
pub fn failure_response(e: &ProtocolError) -> (r: Vec<u8>)
    ensures
        r@ == failure_response_spec(e@),
{
    let mut out: Vec<u8> = Vec::new();
    append_bytes(&mut out, "HTTP/1.1 400 Bad Request\r\n\r\n".as_bytes());
    let msg = e.message_bytes();
    append_bytes(&mut out, msg.as_slice());
    proof {
        assert(out@ =~= failure_response_spec(e@));
    }
    out
}

/// Advances one connection by one event.
///
/// In `Handshaking`, received text is validated against `hostname`: success
/// answers `101` with the accept key and establishes the channel; failure
/// answers `400` with the reason and closes. In `Established`, non-empty
/// received text is echoed back verbatim. Text that fails UTF-8 decoding
/// closes the connection in either state, as does a disconnect. `Closed`
/// is terminal.
pub fn session_step(state: SessionState, event: SessionEvent, hostname: &[u8]) -> (r: SessionStep)
    ensures
        state == SessionState::Closed ==> r.state == SessionState::Closed && r.reply is None
            && !r.shutdown,
        state == SessionState::Handshaking ==> match event {
            SessionEvent::Received(b) => match validate_handshake_spec(b@, hostname@) {
                Ok(k) => r.state == SessionState::Established && !r.shutdown && (r.reply
                    matches Some(resp) && resp@ == success_response_spec(k)),
                Err(e) => r.state == SessionState::Closed && r.shutdown && (r.reply matches Some(
                    resp,
                ) && resp@ == failure_response_spec(e)),
            },
            SessionEvent::TextDecodeFailed => r.state == SessionState::Closed && r.reply is None
                && r.shutdown,
            SessionEvent::Disconnected => r.state == SessionState::Closed && r.reply is None
                && !r.shutdown,
        },
        state == SessionState::Established ==> match event {
            SessionEvent::Received(b) => r.state == SessionState::Established && !r.shutdown && (
            if b@.len() > 0 {
                r.reply matches Some(resp) && resp@ == b@
            } else {
                r.reply is None
            }),
            SessionEvent::TextDecodeFailed => r.state == SessionState::Closed && r.reply is None
                && r.shutdown,
            SessionEvent::Disconnected => r.state == SessionState::Closed && r.reply is None
                && !r.shutdown,
        },
{
    match state {
        SessionState::Closed => SessionStep {
            state: SessionState::Closed,
            reply: None,
            shutdown: false,
        },
        SessionState::Handshaking => match event {
            SessionEvent::Received(b) => match validate_handshake(b.as_slice(), hostname) {
                Ok(key) => SessionStep {
                    state: SessionState::Established,
                    reply: Some(success_response(key.as_slice())),
                    shutdown: false,
                },
                Err(e) => SessionStep {
                    state: SessionState::Closed,
                    reply: Some(failure_response(&e)),
                    shutdown: true,
                },
            },
            SessionEvent::TextDecodeFailed => SessionStep {
                state: SessionState::Closed,
                reply: None,
                shutdown: true,
            },
            SessionEvent::Disconnected => SessionStep {
                state: SessionState::Closed,
                reply: None,
                shutdown: false,
            },
        },
        SessionState::Established => match event {
            SessionEvent::Received(b) => {
                if b.len() > 0 {
                    SessionStep {
                        state: SessionState::Established,
                        reply: Some(b),
                        shutdown: false,
                    }
                } else {
                    SessionStep { state: SessionState::Established, reply: None, shutdown: false }
                }
            },
            SessionEvent::TextDecodeFailed => SessionStep {
                state: SessionState::Closed,
                reply: None,
                shutdown: true,
            },
            SessionEvent::Disconnected => SessionStep {
                state: SessionState::Closed,
                reply: None,
                shutdown: false,
            },
        },
    }
}

} // verus!
