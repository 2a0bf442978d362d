//! A minimal server-side WebSocket protocol core: the HTTP Upgrade
//! handshake, an RFC 6455 frame codec over byte buffers, the mapping
//! between frames and messages, and a registry of live connections
//! with a broadcast primitive.

use vstd::prelude::*;
use vstd::utf8::{valid_utf8, decode_utf8, encode_utf8};
use vstd::utf8::{encode_utf8_valid_utf8, encode_utf8_decode_utf8};
use vstd::string::StrSliceExecFns;
pub use crate::frame::{OpCode, WebSocketFrame};

verus! {

/// Errors that can occur during WebSocket operations: a byte-stream
/// failure, a failed opening handshake, or a malformed frame.
#[derive(Debug)]
pub enum WebSocketError {
    IoError,
    HandshakeError(crate::handshake::HandshakeError),
    InvalidFrame,
}

impl From<crate::handshake::HandshakeError> for WebSocketError {
    fn from(err: crate::handshake::HandshakeError) -> (r: Self) {
        WebSocketError::HandshakeError(err)
    }
}

impl vstd::std_specs::convert::FromSpecImpl<crate::handshake::HandshakeError> for WebSocketError {
    open spec fn obeys_from_spec() -> bool {
        true
    }

    open spec fn from_spec(err: crate::handshake::HandshakeError) -> Self {
        WebSocketError::HandshakeError(err)
    }
}

/// Represents a WebSocket message: text (valid UTF-8), binary data,
/// the Ping and Pong control messages, or Close.
#[derive(Clone, Debug)]
pub enum WebSocketMessage {
    Text(String),
    Binary(Vec<u8>),
    Ping(Vec<u8>),
    Pong(Vec<u8>),
    Close,
}

/// The opcode of the frame that carries a message.
pub open spec fn spec_message_opcode(m: &WebSocketMessage) -> OpCode {
    match m {
        WebSocketMessage::Text(_) => OpCode::Text,
        WebSocketMessage::Binary(_) => OpCode::Binary,
        WebSocketMessage::Ping(_) => OpCode::Ping,
        WebSocketMessage::Pong(_) => OpCode::Pong,
        WebSocketMessage::Close => OpCode::Close,
    }
}

/// The payload of the frame that carries a message: UTF-8 bytes for
/// text, the data itself for the byte-carrying variants, and an empty
/// payload for Close.
pub open spec fn spec_message_payload(m: &WebSocketMessage) -> Seq<u8> {
    match m {
        WebSocketMessage::Text(s) => encode_utf8(s@),
        WebSocketMessage::Binary(d) => d@,
        WebSocketMessage::Ping(d) => d@,
        WebSocketMessage::Pong(d) => d@,
        WebSocketMessage::Close => Seq::empty(),
    }
}

/// Relies on `String::from_utf8`: it succeeds exactly on valid UTF-8
/// input and returns the string whose characters the bytes encode.
#[verifier::external_body]
fn string_from_utf8(bytes: Vec<u8>) -> (r: Option<String>)
    ensures
        match r {
            Some(s) => valid_utf8(bytes@) && s@ == decode_utf8(bytes@),
            None => !valid_utf8(bytes@),
        },
{
    String::from_utf8(bytes).ok()
}

/// Maps a parsed frame to the message it carries. A Text payload is
/// UTF-8-validated; a failure, like a Continuation frame, is an
/// invalid frame. Control messages keep their payload except Close,
/// whose payload is dropped.
pub fn message_from_frame(frame: WebSocketFrame) -> (r: Result<WebSocketMessage, WebSocketError>)
    ensures
        ({
            let p = frame.payload@;
            match frame.opcode {
                OpCode::Text => (if valid_utf8(p) {
                    r matches Ok(m) && m matches WebSocketMessage::Text(s) && s@ == decode_utf8(p)
                } else {
                    r matches Err(e) && e is InvalidFrame
                }),
                OpCode::Binary => r matches Ok(m) && m matches WebSocketMessage::Binary(d) && d@
                    == p,
                OpCode::Ping => r matches Ok(m) && m matches WebSocketMessage::Ping(d) && d@ == p,
                OpCode::Pong => r matches Ok(m) && m matches WebSocketMessage::Pong(d) && d@ == p,
                OpCode::Close => r matches Ok(m) && m is Close,
                OpCode::Continuation => r matches Err(e) && e is InvalidFrame,
            }
        }),
{
    match frame.opcode {
        OpCode::Text => match string_from_utf8(frame.payload) {
            Some(text) => Ok(WebSocketMessage::Text(text)),
            None => Err(WebSocketError::InvalidFrame),
        },
        OpCode::Binary => Ok(WebSocketMessage::Binary(frame.payload)),
        OpCode::Ping => Ok(WebSocketMessage::Ping(frame.payload)),
        OpCode::Pong => Ok(WebSocketMessage::Pong(frame.payload)),
        OpCode::Close => Ok(WebSocketMessage::Close),
        OpCode::Continuation => Err(WebSocketError::InvalidFrame),
    }
}

/// Maps a message to the frame that carries it: Text is encoded as
/// UTF-8 and Close gets an empty payload.
pub fn frame_from_message(message: WebSocketMessage) -> (f: WebSocketFrame)
    ensures
        f.opcode == spec_message_opcode(&message),
        f.payload@ == spec_message_payload(&message),
{
    match message {
        WebSocketMessage::Text(text) => WebSocketFrame {
            opcode: OpCode::Text,
            payload: text.as_str().as_bytes_vec(),
        },
        WebSocketMessage::Binary(data) => WebSocketFrame { opcode: OpCode::Binary, payload: data },
        WebSocketMessage::Ping(data) => WebSocketFrame { opcode: OpCode::Ping, payload: data },
        WebSocketMessage::Pong(data) => WebSocketFrame { opcode: OpCode::Pong, payload: data },
        WebSocketMessage::Close => WebSocketFrame { opcode: OpCode::Close, payload: Vec::new() },
    }
}

/// The opcode of the frame that carries a message, without taking
/// the message.
pub fn message_opcode(message: &WebSocketMessage) -> (r: OpCode)
    ensures
        r == spec_message_opcode(message),
{
    match message {
        WebSocketMessage::Text(_) => OpCode::Text,
        WebSocketMessage::Binary(_) => OpCode::Binary,
        WebSocketMessage::Ping(_) => OpCode::Ping,
        WebSocketMessage::Pong(_) => OpCode::Pong,
        WebSocketMessage::Close => OpCode::Close,
    }
}

/// The payload bytes of the frame that carries a message, copied,
/// without taking the message.
pub fn message_payload_bytes(message: &WebSocketMessage) -> (r: Vec<u8>)
    ensures
        r@ == spec_message_payload(message),
{
    match message {
        WebSocketMessage::Text(text) => text.as_str().as_bytes_vec(),
        WebSocketMessage::Binary(data) => crate::frame::copy_range(data, 0, data.len()),
        WebSocketMessage::Ping(data) => crate::frame::copy_range(data, 0, data.len()),
        WebSocketMessage::Pong(data) => crate::frame::copy_range(data, 0, data.len()),
        WebSocketMessage::Close => Vec::new(),
    }
}

/// Message round trip: serializing the frame of any message and
/// parsing the bytes back yields exactly that frame, and for a text
/// message the payload decodes to the very characters that were sent.
pub proof fn lemma_message_round_trip(m: &WebSocketMessage)
    requires
        spec_message_payload(m).len() <= usize::MAX,
    ensures
        ({
            let bytes = crate::frame::spec_serialize(spec_message_opcode(m), spec_message_payload(m));
            &&& crate::frame::spec_parse_err(bytes) is None
            &&& crate::frame::spec_parsed_opcode(bytes) == spec_message_opcode(m)
            &&& crate::frame::spec_parsed_payload(bytes) == spec_message_payload(m)
            &&& (m matches WebSocketMessage::Text(s) ==> valid_utf8(spec_message_payload(m))
                && decode_utf8(spec_message_payload(m)) == s@)
        }),
{
    broadcast use encode_utf8_valid_utf8, encode_utf8_decode_utf8;

    crate::frame::lemma_frame_round_trip(spec_message_opcode(m), spec_message_payload(m));
}

} // verus!

pub mod connection_manager;
pub mod frame;
pub mod handshake;

pub use connection_manager::ConnectionManager;
pub use handshake::HandshakeError;
