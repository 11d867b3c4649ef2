//! The wire messages: a closed, tagged union of variants, each mapped
//! one-to-one to a single opcode byte, plus the enumerated status codes
//! carried by server replies.
use vstd::prelude::*;

use crate::error::DecodeError;

verus! {

/// A wire message.  Each variant carries only primitive, string or byte
/// payloads; every variant maps to exactly one [`Opcode`].
#[derive(Debug, Clone, PartialEq)]
pub enum Message {
    Error(String),
    CriticalError(String),
    Ping(u64),
    Pong(u64),
    ClientHandshake { username: String, password: String },
    ClientConnect { username: String, password: String },
    ClientDisconnect,
    ClientGoodbye,
    ServerHandshake(HandshakeStatus),
    ServerConnect(ConnectionStatus),
    ServerDisconnect(DisconnectionStatus),
    ServerGoodbye,
    PairPing(u64),
    PairPong(u64),
    PairText(String),
    PairBinary(Vec<u8>),
}

/// The mathematical shape of a [`Message`]: the same variants over sequences
/// instead of heap strings and vectors.
pub enum MessageView {
    Error(Seq<char>),
    CriticalError(Seq<char>),
    Ping(u64),
    Pong(u64),
    ClientHandshake { username: Seq<char>, password: Seq<char> },
    ClientConnect { username: Seq<char>, password: Seq<char> },
    ClientDisconnect,
    ClientGoodbye,
    ServerHandshake(HandshakeStatus),
    ServerConnect(ConnectionStatus),
    ServerDisconnect(DisconnectionStatus),
    ServerGoodbye,
    PairPing(u64),
    PairPong(u64),
    PairText(Seq<char>),
    PairBinary(Seq<u8>),
}

impl View for Message {
    type V = MessageView;

    open spec fn view(&self) -> MessageView {
        match self {
            Message::Error(s) => MessageView::Error(s@),
            Message::CriticalError(s) => MessageView::CriticalError(s@),
            Message::Ping(t) => MessageView::Ping(*t),
            Message::Pong(t) => MessageView::Pong(*t),
            Message::ClientHandshake { username, password } => MessageView::ClientHandshake {
                username: username@,
                password: password@,
            },
            Message::ClientConnect { username, password } => MessageView::ClientConnect {
                username: username@,
                password: password@,
            },
            Message::ClientDisconnect => MessageView::ClientDisconnect,
            Message::ClientGoodbye => MessageView::ClientGoodbye,
            Message::ServerHandshake(s) => MessageView::ServerHandshake(*s),
            Message::ServerConnect(s) => MessageView::ServerConnect(*s),
            Message::ServerDisconnect(s) => MessageView::ServerDisconnect(*s),
            Message::ServerGoodbye => MessageView::ServerGoodbye,
            Message::PairPing(t) => MessageView::PairPing(*t),
            Message::PairPong(t) => MessageView::PairPong(*t),
            Message::PairText(s) => MessageView::PairText(s@),
            Message::PairBinary(b) => MessageView::PairBinary(b@),
        }
    }
}

/// The one-byte discriminant identifying a wire message's shape.
#[derive(Debug, Copy, Clone, PartialEq, Eq, Structural)]
pub enum Opcode {
    Error,
    CriticalError,
    Ping,
    Pong,
    ClientHandshake,
    ClientConnect,
    ClientDisconnect,
    ClientGoodbye,
    ServerHandshake,
    ServerConnect,
    ServerDisconnect,
    ServerGoodbye,
    PairPing,
    PairPong,
    PairText,
    PairBinary,
}

/// The fixed byte value of each opcode.
pub open spec fn opcode_value(op: Opcode) -> u8 {
    match op {
        Opcode::Error => 0x00,
        Opcode::CriticalError => 0x01,
        Opcode::Ping => 0x02,
        Opcode::Pong => 0x03,
        Opcode::ClientHandshake => 0x40,
        Opcode::ClientConnect => 0x41,
        Opcode::ClientDisconnect => 0x42,
        Opcode::ClientGoodbye => 0x43,
        Opcode::ServerHandshake => 0x80,
        Opcode::ServerConnect => 0x81,
        Opcode::ServerDisconnect => 0x82,
        Opcode::ServerGoodbye => 0x83,
        Opcode::PairPing => 0xc0,
        Opcode::PairPong => 0xc1,
        Opcode::PairText => 0xc2,
        Opcode::PairBinary => 0xc3,
    }
}

/// The partial inverse of [`opcode_value`]: `Some` exactly on mapped bytes.
pub open spec fn opcode_from_byte(c: u8) -> Option<Opcode> {
    if c == 0x00 {
        Some(Opcode::Error)
    } else if c == 0x01 {
        Some(Opcode::CriticalError)
    } else if c == 0x02 {
        Some(Opcode::Ping)
    } else if c == 0x03 {
        Some(Opcode::Pong)
    } else if c == 0x40 {
        Some(Opcode::ClientHandshake)
    } else if c == 0x41 {
        Some(Opcode::ClientConnect)
    } else if c == 0x42 {
        Some(Opcode::ClientDisconnect)
    } else if c == 0x43 {
        Some(Opcode::ClientGoodbye)
    } else if c == 0x80 {
        Some(Opcode::ServerHandshake)
    } else if c == 0x81 {
        Some(Opcode::ServerConnect)
    } else if c == 0x82 {
        Some(Opcode::ServerDisconnect)
    } else if c == 0x83 {
        Some(Opcode::ServerGoodbye)
    } else if c == 0xc0 {
        Some(Opcode::PairPing)
    } else if c == 0xc1 {
        Some(Opcode::PairPong)
    } else if c == 0xc2 {
        Some(Opcode::PairText)
    } else if c == 0xc3 {
        Some(Opcode::PairBinary)
    } else {
        None
    }
}

impl Opcode {
    /// The opcode's byte value.
    pub fn as_u8(&self) -> (r: u8)
        ensures
            r == opcode_value(*self),
    {
        match *self {
            Opcode::Error => 0x00,
            Opcode::CriticalError => 0x01,
            Opcode::Ping => 0x02,
            Opcode::Pong => 0x03,
            Opcode::ClientHandshake => 0x40,
            Opcode::ClientConnect => 0x41,
            Opcode::ClientDisconnect => 0x42,
            Opcode::ClientGoodbye => 0x43,
            Opcode::ServerHandshake => 0x80,
            Opcode::ServerConnect => 0x81,
            Opcode::ServerDisconnect => 0x82,
            Opcode::ServerGoodbye => 0x83,
            Opcode::PairPing => 0xc0,
            Opcode::PairPong => 0xc1,
            Opcode::PairText => 0xc2,
            Opcode::PairBinary => 0xc3,
        }
    }

    /// Maps a byte back to its opcode; an unmapped byte is a decode error,
    /// never silently ignored.
    pub fn from_u8(c: u8) -> (r: Result<Opcode, DecodeError>)
        ensures
            r == match opcode_from_byte(c) {
                Some(op) => Ok::<Opcode, DecodeError>(op),
                None => Err(DecodeError::UnknownOpcode(c)),
            },
    {
        match c {
            0x00 => Ok(Opcode::Error),
            0x01 => Ok(Opcode::CriticalError),
            0x02 => Ok(Opcode::Ping),
            0x03 => Ok(Opcode::Pong),
            0x40 => Ok(Opcode::ClientHandshake),
            0x41 => Ok(Opcode::ClientConnect),
            0x42 => Ok(Opcode::ClientDisconnect),
            0x43 => Ok(Opcode::ClientGoodbye),
            0x80 => Ok(Opcode::ServerHandshake),
            0x81 => Ok(Opcode::ServerConnect),
            0x82 => Ok(Opcode::ServerDisconnect),
            0x83 => Ok(Opcode::ServerGoodbye),
            0xc0 => Ok(Opcode::PairPing),
            0xc1 => Ok(Opcode::PairPong),
            0xc2 => Ok(Opcode::PairText),
            0xc3 => Ok(Opcode::PairBinary),
            _ => Err(DecodeError::UnknownOpcode(c)),
        }
    }
}

/// The opcode of each message shape; the mapping is one-to-one.
pub open spec fn msg_opcode(m: MessageView) -> Opcode {
    match m {
        MessageView::Error(_) => Opcode::Error,
        MessageView::CriticalError(_) => Opcode::CriticalError,
        MessageView::Ping(_) => Opcode::Ping,
        MessageView::Pong(_) => Opcode::Pong,
        MessageView::ClientHandshake { .. } => Opcode::ClientHandshake,
        MessageView::ClientConnect { .. } => Opcode::ClientConnect,
        MessageView::ClientDisconnect => Opcode::ClientDisconnect,
        MessageView::ClientGoodbye => Opcode::ClientGoodbye,
        MessageView::ServerHandshake(_) => Opcode::ServerHandshake,
        MessageView::ServerConnect(_) => Opcode::ServerConnect,
        MessageView::ServerDisconnect(_) => Opcode::ServerDisconnect,
        MessageView::ServerGoodbye => Opcode::ServerGoodbye,
        MessageView::PairPing(_) => Opcode::PairPing,
        MessageView::PairPong(_) => Opcode::PairPong,
        MessageView::PairText(_) => Opcode::PairText,
        MessageView::PairBinary(_) => Opcode::PairBinary,
    }
}

impl Message {
    /// The opcode this message is framed with.
    pub fn opcode(&self) -> (r: Opcode)
        ensures
            r == msg_opcode(self@),
    {
        match *self {
            Message::Error(..) => Opcode::Error,
            Message::CriticalError(..) => Opcode::CriticalError,
            Message::Ping(..) => Opcode::Ping,
            Message::Pong(..) => Opcode::Pong,
            Message::ClientHandshake { .. } => Opcode::ClientHandshake,
            Message::ClientConnect { .. } => Opcode::ClientConnect,
            Message::ClientDisconnect => Opcode::ClientDisconnect,
            Message::ClientGoodbye => Opcode::ClientGoodbye,
            Message::ServerHandshake(..) => Opcode::ServerHandshake,
            Message::ServerConnect(..) => Opcode::ServerConnect,
            Message::ServerDisconnect(..) => Opcode::ServerDisconnect,
            Message::ServerGoodbye => Opcode::ServerGoodbye,
            Message::PairPing(..) => Opcode::PairPing,
            Message::PairPong(..) => Opcode::PairPong,
            Message::PairText(..) => Opcode::PairText,
            Message::PairBinary(..) => Opcode::PairBinary,
        }
    }
}

/// Outcome of the identity handshake.
#[derive(Debug, Copy, Clone, PartialEq, Eq, Structural)]
pub enum HandshakeStatus {
    Okay,
    UserExists,
}

/// The fixed byte value of each handshake status.
pub open spec fn handshake_status_value(s: HandshakeStatus) -> u8 {
    match s {
        HandshakeStatus::Okay => 0x01,
        HandshakeStatus::UserExists => 0x02,
    }
}

/// The partial inverse of [`handshake_status_value`].
pub open spec fn handshake_status_from_byte(c: u8) -> Option<HandshakeStatus> {
    if c == 0x01 {
        Some(HandshakeStatus::Okay)
    } else if c == 0x02 {
        Some(HandshakeStatus::UserExists)
    } else {
        None
    }
}

impl HandshakeStatus {
    /// The status's byte value.
    pub fn as_u8(&self) -> (r: u8)
        ensures
            r == handshake_status_value(*self),
    {
        match *self {
            HandshakeStatus::Okay => 0x01,
            HandshakeStatus::UserExists => 0x02,
        }
    }

    /// Maps a byte back to its status; an out-of-range byte is a decode error
    /// naming this enum.
    pub fn from_u8(c: u8) -> (r: Result<HandshakeStatus, DecodeError>)
        ensures
            r == match handshake_status_from_byte(c) {
                Some(s) => Ok::<HandshakeStatus, DecodeError>(s),
                None => Err(DecodeError::UnknownHandshakeStatus(c)),
            },
    {
        match c {
            0x01 => Ok(HandshakeStatus::Okay),
            0x02 => Ok(HandshakeStatus::UserExists),
            _ => Err(DecodeError::UnknownHandshakeStatus(c)),
        }
    }
}

/// Outcome of a pairing request.
#[derive(Debug, Copy, Clone, PartialEq, Eq, Structural)]
pub enum ConnectionStatus {
    Okay,
    AlreadyConnected,
    PairEmployed,
    NoSuchUser,
    IncorrectPassword,
}

/// The fixed byte value of each connection status.
pub open spec fn connection_status_value(s: ConnectionStatus) -> u8 {
    match s {
        ConnectionStatus::Okay => 0x01,
        ConnectionStatus::AlreadyConnected => 0x02,
        ConnectionStatus::PairEmployed => 0x03,
        ConnectionStatus::NoSuchUser => 0x04,
        ConnectionStatus::IncorrectPassword => 0x05,
    }
}

/// The partial inverse of [`connection_status_value`].
pub open spec fn connection_status_from_byte(c: u8) -> Option<ConnectionStatus> {
    if c == 0x01 {
        Some(ConnectionStatus::Okay)
    } else if c == 0x02 {
        Some(ConnectionStatus::AlreadyConnected)
    } else if c == 0x03 {
        Some(ConnectionStatus::PairEmployed)
    } else if c == 0x04 {
        Some(ConnectionStatus::NoSuchUser)
    } else if c == 0x05 {
        Some(ConnectionStatus::IncorrectPassword)
    } else {
        None
    }
}

impl ConnectionStatus {
    /// The status's byte value.
    pub fn as_u8(&self) -> (r: u8)
        ensures
            r == connection_status_value(*self),
    {
        match *self {
            ConnectionStatus::Okay => 0x01,
            ConnectionStatus::AlreadyConnected => 0x02,
            ConnectionStatus::PairEmployed => 0x03,
            ConnectionStatus::NoSuchUser => 0x04,
            ConnectionStatus::IncorrectPassword => 0x05,
        }
    }

    /// Maps a byte back to its status; an out-of-range byte is a decode error
    /// naming this enum.
    pub fn from_u8(c: u8) -> (r: Result<ConnectionStatus, DecodeError>)
        ensures
            r == match connection_status_from_byte(c) {
                Some(s) => Ok::<ConnectionStatus, DecodeError>(s),
                None => Err(DecodeError::UnknownConnectionStatus(c)),
            },
    {
        match c {
            0x01 => Ok(ConnectionStatus::Okay),
            0x02 => Ok(ConnectionStatus::AlreadyConnected),
            0x03 => Ok(ConnectionStatus::PairEmployed),
            0x04 => Ok(ConnectionStatus::NoSuchUser),
            0x05 => Ok(ConnectionStatus::IncorrectPassword),
            _ => Err(DecodeError::UnknownConnectionStatus(c)),
        }
    }
}

/// Outcome of an unpairing request.
#[derive(Debug, Copy, Clone, PartialEq, Eq, Structural)]
pub enum DisconnectionStatus {
    Okay,
    NotConnected,
}

/// The fixed byte value of each disconnection status.
pub open spec fn disconnection_status_value(s: DisconnectionStatus) -> u8 {
    match s {
        DisconnectionStatus::Okay => 0x01,
        DisconnectionStatus::NotConnected => 0x02,
    }
}

/// The partial inverse of [`disconnection_status_value`].
pub open spec fn disconnection_status_from_byte(c: u8) -> Option<DisconnectionStatus> {
    if c == 0x01 {
        Some(DisconnectionStatus::Okay)
    } else if c == 0x02 {
        Some(DisconnectionStatus::NotConnected)
    } else {
        None
    }
}

impl DisconnectionStatus {
    /// The status's byte value.
    pub fn as_u8(&self) -> (r: u8)
        ensures
            r == disconnection_status_value(*self),
    {
        match *self {
            DisconnectionStatus::Okay => 0x01,
            DisconnectionStatus::NotConnected => 0x02,
        }
    }

    /// Maps a byte back to its status; an out-of-range byte is a decode error
    /// naming this enum.
    pub fn from_u8(c: u8) -> (r: Result<DisconnectionStatus, DecodeError>)
        ensures
            r == match disconnection_status_from_byte(c) {
                Some(s) => Ok::<DisconnectionStatus, DecodeError>(s),
                None => Err(DecodeError::UnknownDisconnectionStatus(c)),
            },
    {
        match c {
            0x01 => Ok(DisconnectionStatus::Okay),
            0x02 => Ok(DisconnectionStatus::NotConnected),
            _ => Err(DecodeError::UnknownDisconnectionStatus(c)),
        }
    }
}

} // verus!
