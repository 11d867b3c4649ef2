//! Error taxonomy of the connection engine.
//!
//! Decode errors are structural faults found while parsing a frame; they are
//! reported to the peer as an `Error` message before the connection closes.
use vstd::prelude::*;

use vstd::utf8::encode_utf8;

verus! {

/// A structural fault found while decoding a frame.  Each variant names the
/// field that failed, and carries the offending byte where there is one.
#[derive(Debug, Copy, Clone, PartialEq, Eq, Structural)]
pub enum DecodeError {
    /// The first byte of the frame is not a mapped opcode.
    UnknownOpcode(u8),
    /// A handshake-status field held an unmapped byte.
    UnknownHandshakeStatus(u8),
    /// A connection-status field held an unmapped byte.
    UnknownConnectionStatus(u8),
    /// A disconnection-status field held an unmapped byte.
    UnknownDisconnectionStatus(u8),
    /// A string field's framed bytes are not valid UTF-8.
    InvalidString,
}

impl DecodeError {
    /// A fixed human-readable description, sent to the peer in an `Error`
    /// message.
    pub fn text(&self) -> (r: String)
        ensures
            r@ == error_text(ErrorKind::Decode(*self)),
    {
        match self {
            DecodeError::UnknownOpcode(_) => String::from_str("unknown opcode"),
            DecodeError::UnknownHandshakeStatus(_) => String::from_str("unknown handshake status"),
            DecodeError::UnknownConnectionStatus(_) => String::from_str("unknown connection status"),
            DecodeError::UnknownDisconnectionStatus(_) => String::from_str(
                "unknown disconnection status",
            ),
            DecodeError::InvalidString => String::from_str("invalid string"),
        }
    }
}

/// A condition that is fatal to one connection: a decode fault, an overgrown
/// read buffer, or a message sent before the handshake finished.
#[derive(Debug, Copy, Clone, PartialEq, Eq, Structural)]
pub enum ErrorKind {
    Decode(DecodeError),
    BufferOverflow,
    AuthorizationRequired,
}

/// The description each `ErrorKind` is reported with.
pub open spec fn error_text(e: ErrorKind) -> Seq<char> {
    match e {
        ErrorKind::Decode(d) => match d {
            DecodeError::UnknownOpcode(_) => "unknown opcode"@,
            DecodeError::UnknownHandshakeStatus(_) => "unknown handshake status"@,
            DecodeError::UnknownConnectionStatus(_) => "unknown connection status"@,
            DecodeError::UnknownDisconnectionStatus(_) => "unknown disconnection status"@,
            DecodeError::InvalidString => "invalid string"@,
        },
        ErrorKind::BufferOverflow => "buffer overflow"@,
        ErrorKind::AuthorizationRequired => "authorization required"@,
    }
}

impl ErrorKind {
    /// A fixed human-readable description, sent to the peer in an `Error`
    /// message.
    pub fn text(&self) -> (r: String)
        ensures
            r@ == error_text(*self),
    {
        match self {
            ErrorKind::Decode(d) => d.text(),
            ErrorKind::BufferOverflow => String::from_str("buffer overflow"),
            ErrorKind::AuthorizationRequired => String::from_str("authorization required"),
        }
    }
}


/// Every error description is short enough to be framed: its UTF-8 encoding
/// fits a `u32` length prefix.
pub proof fn lemma_error_text_encodable(e: ErrorKind)
    ensures
        encode_utf8(error_text(e)).len() <= u32::MAX,
{
    crate::codec::lemma_encode_utf8_len(error_text(e));
    match e {
        ErrorKind::Decode(d) => match d {
            DecodeError::UnknownOpcode(_) => {
                reveal_strlit("unknown opcode");
            },
            DecodeError::UnknownHandshakeStatus(_) => {
                reveal_strlit("unknown handshake status");
            },
            DecodeError::UnknownConnectionStatus(_) => {
                reveal_strlit("unknown connection status");
            },
            DecodeError::UnknownDisconnectionStatus(_) => {
                reveal_strlit("unknown disconnection status");
            },
            DecodeError::InvalidString => {
                reveal_strlit("invalid string");
            },
        },
        ErrorKind::BufferOverflow => {
            reveal_strlit("buffer overflow");
        },
        ErrorKind::AuthorizationRequired => {
            reveal_strlit("authorization required");
        },
    }
}

} // verus!
