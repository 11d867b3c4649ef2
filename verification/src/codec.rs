//! The wire codec: pure functions between byte buffers and [`Message`]
//! values.
//!
//! Every field encoding is big-endian: `u8` is one byte, `u64` eight bytes,
//! and byte strings carry a `u32` length prefix followed by the raw bytes
//! (UTF-8, validated on decode, for string fields).  A frame is the opcode
//! byte followed by the variant's fields in declaration order; there is no
//! outer length prefix, so the decoder walks the fields to find the frame's
//! end.
//!
//! Decoding is incremental: on a buffer that does not yet hold a complete
//! frame it reports "no message yet" and consumes nothing, so the caller can
//! retry once more bytes arrive.  A structural fault (unknown opcode, invalid
//! UTF-8, unmapped status byte) consumes the bytes inspected for the broken
//! frame, so the stream does not stick on a poison sequence.
use vstd::prelude::*;

use vstd::utf8::{
    decode_utf8,
    encode_utf8,
    encode_utf8_decode_utf8,
    encode_utf8_valid_utf8,
    valid_utf8,
};

use crate::bytebuf::{buf_advance, buf_extend, buf_to_vec, bytes_view};
use crate::error::{DecodeError, ErrorKind};
use crate::protocol::{
    connection_status_from_byte,
    connection_status_value,
    disconnection_status_from_byte,
    disconnection_status_value,
    handshake_status_from_byte,
    handshake_status_value,
    msg_opcode,
    opcode_from_byte,
    opcode_value,
    ConnectionStatus,
    DisconnectionStatus,
    HandshakeStatus,
    Message,
    MessageView,
    Opcode,
};

verus! {

// ------------------------------------------------------------------
// Big-endian views of the primitive fields
// ------------------------------------------------------------------
/// The four bytes of `n`, most significant first.
pub open spec fn be32_bytes(n: u32) -> Seq<u8> {
    seq![(n >> 24) as u8, (n >> 16) as u8, (n >> 8) as u8, n as u8]
}

/// The value read from four bytes, most significant first.
pub open spec fn be32_value(b: Seq<u8>) -> u32
    recommends
        b.len() == 4,
{
    ((b[0] as u32) << 24) | ((b[1] as u32) << 16) | ((b[2] as u32) << 8) | (b[3] as u32)
}

/// The eight bytes of `n`, most significant first.
pub open spec fn be64_bytes(n: u64) -> Seq<u8> {
    seq![
        (n >> 56) as u8,
        (n >> 48) as u8,
        (n >> 40) as u8,
        (n >> 32) as u8,
        (n >> 24) as u8,
        (n >> 16) as u8,
        (n >> 8) as u8,
        n as u8,
    ]
}

/// The value read from eight bytes, most significant first.
pub open spec fn be64_value(b: Seq<u8>) -> u64
    recommends
        b.len() == 8,
{
    ((b[0] as u64) << 56) | ((b[1] as u64) << 48) | ((b[2] as u64) << 40) | ((b[3] as u64) << 32)
        | ((b[4] as u64) << 24) | ((b[5] as u64) << 16) | ((b[6] as u64) << 8) | (b[7] as u64)
}

/// Reading back the four bytes of `n` yields `n`.
pub proof fn lemma_be32_round(n: u32)
    ensures
        be32_value(be32_bytes(n)) == n,
{
    assert((((n >> 24) as u8 as u32) << 24) | (((n >> 16) as u8 as u32) << 16) | (((n
        >> 8) as u8 as u32) << 8) | (n as u8 as u32) == n) by (bit_vector);
}

/// Reading back the eight bytes of `n` yields `n`.
pub proof fn lemma_be64_round(n: u64)
    ensures
        be64_value(be64_bytes(n)) == n,
{
    assert((((n >> 56) as u8 as u64) << 56) | (((n >> 48) as u8 as u64) << 48) | (((n
        >> 40) as u8 as u64) << 40) | (((n >> 32) as u8 as u64) << 32) | (((n
        >> 24) as u8 as u64) << 24) | (((n >> 16) as u8 as u64) << 16) | (((n
        >> 8) as u8 as u64) << 8) | (n as u8 as u64) == n) by (bit_vector);
}

// ------------------------------------------------------------------
// The specification decoder
// ------------------------------------------------------------------
/// One step of the specification decoder: a value and the position after it,
/// "not enough bytes yet", or a structural fault at a position.
#[verifier::ext_equal]
pub enum SpecStep<T> {
    Got { v: T, end: int },
    Short,
    Fail { err: DecodeError, end: int },
}

/// Reads one byte at `p`.
pub open spec fn sdec_u8(b: Seq<u8>, p: int) -> SpecStep<u8> {
    if p + 1 <= b.len() {
        SpecStep::Got { v: b[p], end: p + 1 }
    } else {
        SpecStep::Short
    }
}

/// Reads a big-endian `u32` at `p`.
pub open spec fn sdec_u32(b: Seq<u8>, p: int) -> SpecStep<u32> {
    if p + 4 <= b.len() {
        SpecStep::Got { v: be32_value(b.subrange(p, p + 4)), end: p + 4 }
    } else {
        SpecStep::Short
    }
}

/// Reads a big-endian `u64` at `p`.
pub open spec fn sdec_u64(b: Seq<u8>, p: int) -> SpecStep<u64> {
    if p + 8 <= b.len() {
        SpecStep::Got { v: be64_value(b.subrange(p, p + 8)), end: p + 8 }
    } else {
        SpecStep::Short
    }
}

/// Reads a length-prefixed byte string at `p`.
pub open spec fn sdec_bytes(b: Seq<u8>, p: int) -> SpecStep<Seq<u8>> {
    match sdec_u32(b, p) {
        SpecStep::Got { v: n, end: q } => if q + n <= b.len() {
            SpecStep::Got { v: b.subrange(q, q + n), end: q + n }
        } else {
            SpecStep::Short
        },
        SpecStep::Short => SpecStep::Short,
        SpecStep::Fail { err, end } => SpecStep::Fail { err, end },
    }
}

/// Reads a length-prefixed UTF-8 string at `p`.  A fully framed body that is
/// not valid UTF-8 is a fault at the position after the body.
pub open spec fn sdec_string(b: Seq<u8>, p: int) -> SpecStep<Seq<char>> {
    match sdec_bytes(b, p) {
        SpecStep::Got { v: bs, end: q } => if valid_utf8(bs) {
            SpecStep::Got { v: decode_utf8(bs), end: q }
        } else {
            SpecStep::Fail { err: DecodeError::InvalidString, end: q }
        },
        SpecStep::Short => SpecStep::Short,
        SpecStep::Fail { err, end } => SpecStep::Fail { err, end },
    }
}

/// Reads an opcode byte at `p`; an unmapped byte is a fault.
pub open spec fn sdec_opcode(b: Seq<u8>, p: int) -> SpecStep<Opcode> {
    match sdec_u8(b, p) {
        SpecStep::Got { v: c, end: q } => match opcode_from_byte(c) {
            Some(op) => SpecStep::Got { v: op, end: q },
            None => SpecStep::Fail { err: DecodeError::UnknownOpcode(c), end: q },
        },
        SpecStep::Short => SpecStep::Short,
        SpecStep::Fail { err, end } => SpecStep::Fail { err, end },
    }
}

/// Reads a handshake-status byte at `p`; an unmapped byte is a fault.
pub open spec fn sdec_handshake_status(b: Seq<u8>, p: int) -> SpecStep<HandshakeStatus> {
    match sdec_u8(b, p) {
        SpecStep::Got { v: c, end: q } => match handshake_status_from_byte(c) {
            Some(s) => SpecStep::Got { v: s, end: q },
            None => SpecStep::Fail { err: DecodeError::UnknownHandshakeStatus(c), end: q },
        },
        SpecStep::Short => SpecStep::Short,
        SpecStep::Fail { err, end } => SpecStep::Fail { err, end },
    }
}

/// Reads a connection-status byte at `p`; an unmapped byte is a fault.
pub open spec fn sdec_connection_status(b: Seq<u8>, p: int) -> SpecStep<ConnectionStatus> {
    match sdec_u8(b, p) {
        SpecStep::Got { v: c, end: q } => match connection_status_from_byte(c) {
            Some(s) => SpecStep::Got { v: s, end: q },
            None => SpecStep::Fail { err: DecodeError::UnknownConnectionStatus(c), end: q },
        },
        SpecStep::Short => SpecStep::Short,
        SpecStep::Fail { err, end } => SpecStep::Fail { err, end },
    }
}

/// Reads a disconnection-status byte at `p`; an unmapped byte is a fault.
pub open spec fn sdec_disconnection_status(b: Seq<u8>, p: int) -> SpecStep<DisconnectionStatus> {
    match sdec_u8(b, p) {
        SpecStep::Got { v: c, end: q } => match disconnection_status_from_byte(c) {
            Some(s) => SpecStep::Got { v: s, end: q },
            None => SpecStep::Fail { err: DecodeError::UnknownDisconnectionStatus(c), end: q },
        },
        SpecStep::Short => SpecStep::Short,
        SpecStep::Fail { err, end } => SpecStep::Fail { err, end },
    }
}

/// Reads one complete frame from the front of `b`: the opcode byte, then the
/// variant's fields in declaration order.
pub open spec fn sdec_message(b: Seq<u8>) -> SpecStep<MessageView> {
    match sdec_opcode(b, 0) {
        SpecStep::Short => SpecStep::Short,
        SpecStep::Fail { err, end } => SpecStep::Fail { err, end },
        SpecStep::Got { v: op, end: q } => match op {
            Opcode::Error => match sdec_string(b, q) {
                SpecStep::Got { v: s, end } => SpecStep::Got { v: MessageView::Error(s), end },
                SpecStep::Short => SpecStep::Short,
                SpecStep::Fail { err, end } => SpecStep::Fail { err, end },
            },
            Opcode::CriticalError => match sdec_string(b, q) {
                SpecStep::Got { v: s, end } => SpecStep::Got {
                    v: MessageView::CriticalError(s),
                    end,
                },
                SpecStep::Short => SpecStep::Short,
                SpecStep::Fail { err, end } => SpecStep::Fail { err, end },
            },
            Opcode::Ping => match sdec_u64(b, q) {
                SpecStep::Got { v: t, end } => SpecStep::Got { v: MessageView::Ping(t), end },
                SpecStep::Short => SpecStep::Short,
                SpecStep::Fail { err, end } => SpecStep::Fail { err, end },
            },
            Opcode::Pong => match sdec_u64(b, q) {
                SpecStep::Got { v: t, end } => SpecStep::Got { v: MessageView::Pong(t), end },
                SpecStep::Short => SpecStep::Short,
                SpecStep::Fail { err, end } => SpecStep::Fail { err, end },
            },
            Opcode::ClientHandshake => match sdec_string(b, q) {
                SpecStep::Got { v: u, end: q2 } => match sdec_string(b, q2) {
                    SpecStep::Got { v: pw, end } => SpecStep::Got {
                        v: MessageView::ClientHandshake { username: u, password: pw },
                        end,
                    },
                    SpecStep::Short => SpecStep::Short,
                    SpecStep::Fail { err, end } => SpecStep::Fail { err, end },
                },
                SpecStep::Short => SpecStep::Short,
                SpecStep::Fail { err, end } => SpecStep::Fail { err, end },
            },
            Opcode::ClientConnect => match sdec_string(b, q) {
                SpecStep::Got { v: u, end: q2 } => match sdec_string(b, q2) {
                    SpecStep::Got { v: pw, end } => SpecStep::Got {
                        v: MessageView::ClientConnect { username: u, password: pw },
                        end,
                    },
                    SpecStep::Short => SpecStep::Short,
                    SpecStep::Fail { err, end } => SpecStep::Fail { err, end },
                },
                SpecStep::Short => SpecStep::Short,
                SpecStep::Fail { err, end } => SpecStep::Fail { err, end },
            },
            Opcode::ClientDisconnect => SpecStep::Got { v: MessageView::ClientDisconnect, end: q },
            Opcode::ClientGoodbye => SpecStep::Got { v: MessageView::ClientGoodbye, end: q },
            Opcode::ServerHandshake => match sdec_handshake_status(b, q) {
                SpecStep::Got { v: s, end } => SpecStep::Got {
                    v: MessageView::ServerHandshake(s),
                    end,
                },
                SpecStep::Short => SpecStep::Short,
                SpecStep::Fail { err, end } => SpecStep::Fail { err, end },
            },
            Opcode::ServerConnect => match sdec_connection_status(b, q) {
                SpecStep::Got { v: s, end } => SpecStep::Got {
                    v: MessageView::ServerConnect(s),
                    end,
                },
                SpecStep::Short => SpecStep::Short,
                SpecStep::Fail { err, end } => SpecStep::Fail { err, end },
            },
            Opcode::ServerDisconnect => match sdec_disconnection_status(b, q) {
                SpecStep::Got { v: s, end } => SpecStep::Got {
                    v: MessageView::ServerDisconnect(s),
                    end,
                },
                SpecStep::Short => SpecStep::Short,
                SpecStep::Fail { err, end } => SpecStep::Fail { err, end },
            },
            Opcode::ServerGoodbye => SpecStep::Got { v: MessageView::ServerGoodbye, end: q },
            Opcode::PairPing => match sdec_u64(b, q) {
                SpecStep::Got { v: t, end } => SpecStep::Got { v: MessageView::PairPing(t), end },
                SpecStep::Short => SpecStep::Short,
                SpecStep::Fail { err, end } => SpecStep::Fail { err, end },
            },
            Opcode::PairPong => match sdec_u64(b, q) {
                SpecStep::Got { v: t, end } => SpecStep::Got { v: MessageView::PairPong(t), end },
                SpecStep::Short => SpecStep::Short,
                SpecStep::Fail { err, end } => SpecStep::Fail { err, end },
            },
            Opcode::PairText => match sdec_string(b, q) {
                SpecStep::Got { v: s, end } => SpecStep::Got { v: MessageView::PairText(s), end },
                SpecStep::Short => SpecStep::Short,
                SpecStep::Fail { err, end } => SpecStep::Fail { err, end },
            },
            Opcode::PairBinary => match sdec_bytes(b, q) {
                SpecStep::Got { v: bs, end } => SpecStep::Got {
                    v: MessageView::PairBinary(bs),
                    end,
                },
                SpecStep::Short => SpecStep::Short,
                SpecStep::Fail { err, end } => SpecStep::Fail { err, end },
            },
        },
    }
}

// ------------------------------------------------------------------
// The specification encoder
// ------------------------------------------------------------------
/// A length-prefixed byte string: the `u32` byte count, then the bytes.
pub open spec fn enc_bytes(bs: Seq<u8>) -> Seq<u8> {
    be32_bytes(bs.len() as u32) + bs
}

/// A length-prefixed UTF-8 string field.
pub open spec fn enc_string(s: Seq<char>) -> Seq<u8> {
    enc_bytes(encode_utf8(s))
}

/// True when every length-prefixed field of `m` fits its `u32` length prefix;
/// encoding is defined exactly on these messages.
pub open spec fn encodable(m: MessageView) -> bool {
    match m {
        MessageView::Error(s) => encode_utf8(s).len() <= u32::MAX,
        MessageView::CriticalError(s) => encode_utf8(s).len() <= u32::MAX,
        MessageView::ClientHandshake { username, password } => encode_utf8(username).len()
            <= u32::MAX && encode_utf8(password).len() <= u32::MAX,
        MessageView::ClientConnect { username, password } => encode_utf8(username).len()
            <= u32::MAX && encode_utf8(password).len() <= u32::MAX,
        MessageView::PairText(s) => encode_utf8(s).len() <= u32::MAX,
        MessageView::PairBinary(bs) => bs.len() <= u32::MAX,
        _ => true,
    }
}

/// The frame of `m`: its opcode byte, then its fields in declaration order.
pub open spec fn spec_encode(m: MessageView) -> Seq<u8> {
    seq![opcode_value(msg_opcode(m))] + match m {
        MessageView::Error(s) => enc_string(s),
        MessageView::CriticalError(s) => enc_string(s),
        MessageView::Ping(t) => be64_bytes(t),
        MessageView::Pong(t) => be64_bytes(t),
        MessageView::ClientHandshake { username, password } => enc_string(username) + enc_string(
            password,
        ),
        MessageView::ClientConnect { username, password } => enc_string(username) + enc_string(
            password,
        ),
        MessageView::ClientDisconnect => Seq::empty(),
        MessageView::ClientGoodbye => Seq::empty(),
        MessageView::ServerHandshake(s) => seq![handshake_status_value(s)],
        MessageView::ServerConnect(s) => seq![connection_status_value(s)],
        MessageView::ServerDisconnect(s) => seq![disconnection_status_value(s)],
        MessageView::ServerGoodbye => Seq::empty(),
        MessageView::PairPing(t) => be64_bytes(t),
        MessageView::PairPong(t) => be64_bytes(t),
        MessageView::PairText(s) => enc_string(s),
        MessageView::PairBinary(bs) => enc_bytes(bs),
    }
}

// ------------------------------------------------------------------
// The executable decoder
// ------------------------------------------------------------------
/// One step of the executable decoder, mirroring [`SpecStep`].
pub enum Step<T> {
    Got(T, usize),
    Short,
    Fail(DecodeError, usize),
}

/// Turns framed bytes back into a string.
///
/// Relies on `String::from_utf8`: it succeeds exactly on valid UTF-8 input,
/// and the returned string's UTF-8 encoding is the input itself.
#[verifier::external_body]
fn string_from_utf8(v: Vec<u8>) -> (r: Option<String>)
    ensures
        r is None <==> !valid_utf8(v@),
        r matches Some(s) ==> encode_utf8(s@) == v@,
{
    match String::from_utf8(v) {
        Ok(s) => Some(s),
        Err(_) => None,
    }
}

/// The stateless codec.  Decoding walks a borrowed buffer with an explicit
/// cursor; encoding appends to a byte vector.
pub struct Codec;

impl Codec {
    /// Reads one byte at `pos`.
    fn decode_u8(&self, buf: &Vec<u8>, pos: usize) -> (r: Option<(u8, usize)>)
        requires
            pos <= buf@.len(),
        ensures
            match r {
                Some(t) => sdec_u8(buf@, pos as int) == (SpecStep::Got { v: t.0, end: t.1 as int })
                    && t.1 <= buf@.len(),
                None => sdec_u8(buf@, pos as int) is Short,
            },
    {
        if buf.len() - pos >= 1 {
            Some((buf[pos], pos + 1))
        } else {
            None
        }
    }

    /// Reads a big-endian `u32` at `pos`.
    fn decode_u32(&self, buf: &Vec<u8>, pos: usize) -> (r: Option<(u32, usize)>)
        requires
            pos <= buf@.len(),
        ensures
            match r {
                Some(t) => sdec_u32(buf@, pos as int) == (SpecStep::Got { v: t.0, end: t.1 as int })
                    && t.1 <= buf@.len(),
                None => sdec_u32(buf@, pos as int) is Short,
            },
    {
        if buf.len() - pos >= 4 {
            let v: u32 = ((buf[pos] as u32) << 24) | ((buf[pos + 1] as u32) << 16) | ((buf[pos
                + 2] as u32) << 8) | (buf[pos + 3] as u32);
            proof {
                assert(buf@.subrange(pos as int, pos as int + 4) =~= seq![
                    buf@[pos as int],
                    buf@[pos as int + 1],
                    buf@[pos as int + 2],
                    buf@[pos as int + 3],
                ]);
            }
            Some((v, pos + 4))
        } else {
            None
        }
    }

    /// Reads a big-endian `u64` at `pos`.
    fn decode_u64(&self, buf: &Vec<u8>, pos: usize) -> (r: Option<(u64, usize)>)
        requires
            pos <= buf@.len(),
        ensures
            match r {
                Some(t) => sdec_u64(buf@, pos as int) == (SpecStep::Got { v: t.0, end: t.1 as int })
                    && t.1 <= buf@.len(),
                None => sdec_u64(buf@, pos as int) is Short,
            },
    {
        if buf.len() - pos >= 8 {
            let v: u64 = ((buf[pos] as u64) << 56) | ((buf[pos + 1] as u64) << 48) | ((buf[pos
                + 2] as u64) << 40) | ((buf[pos + 3] as u64) << 32) | ((buf[pos + 4] as u64) << 24)
                | ((buf[pos + 5] as u64) << 16) | ((buf[pos + 6] as u64) << 8) | (buf[pos
                + 7] as u64);
            proof {
                assert(buf@.subrange(pos as int, pos as int + 8) =~= seq![
                    buf@[pos as int],
                    buf@[pos as int + 1],
                    buf@[pos as int + 2],
                    buf@[pos as int + 3],
                    buf@[pos as int + 4],
                    buf@[pos as int + 5],
                    buf@[pos as int + 6],
                    buf@[pos as int + 7],
                ]);
            }
            Some((v, pos + 8))
        } else {
            None
        }
    }

    /// Reads a length-prefixed byte string at `pos`.
    fn decode_bytes(&self, buf: &Vec<u8>, pos: usize) -> (r: Option<(Vec<u8>, usize)>)
        requires
            pos <= buf@.len(),
        ensures
            match r {
                Some(t) => sdec_bytes(buf@, pos as int) == (SpecStep::Got {
                    v: t.0@,
                    end: t.1 as int,
                }) && t.1 <= buf@.len(),
                None => sdec_bytes(buf@, pos as int) is Short,
            },
    {
        match self.decode_u32(buf, pos) {
            None => None,
            Some((n, q)) => {
                let len = n as usize;
                if buf.len() - q >= len {
                    let end: usize = q + len;
                    let mut v: Vec<u8> = Vec::new();
                    let mut i: usize = q;
                    while i < end
                        invariant
                            q <= i <= end,
                            end == q + len,
                            end <= buf@.len(),
                            v@ =~= buf@.subrange(q as int, i as int),
                        decreases end - i,
                    {
                        v.push(buf[i]);
                        i += 1;
                    }
                    Some((v, end))
                } else {
                    None
                }
            },
        }
    }

    /// Reads a length-prefixed UTF-8 string at `pos`.
    fn decode_string(&self, buf: &Vec<u8>, pos: usize) -> (r: Step<String>)
        requires
            pos <= buf@.len(),
        ensures
            match r {
                Step::Got(s, q) => sdec_string(buf@, pos as int) == (SpecStep::Got {
                    v: s@,
                    end: q as int,
                }) && q <= buf@.len(),
                Step::Short => sdec_string(buf@, pos as int) is Short,
                Step::Fail(e, q) => sdec_string(buf@, pos as int) == (SpecStep::<Seq<char>>::Fail {
                    err: e,
                    end: q as int,
                }) && q <= buf@.len(),
            },
    {
        match self.decode_bytes(buf, pos) {
            None => Step::Short,
            Some((bs, q)) => {
                let ghost bytes = bs@;
                match string_from_utf8(bs) {
                    Some(s) => {
                        proof {
                            encode_utf8_valid_utf8(s@);
                            encode_utf8_decode_utf8(s@);
                        }
                        Step::Got(s, q)
                    },
                    None => Step::Fail(DecodeError::InvalidString, q),
                }
            },
        }
    }

    /// Reads the opcode byte at `pos`.
    fn decode_opcode(&self, buf: &Vec<u8>, pos: usize) -> (r: Step<Opcode>)
        requires
            pos <= buf@.len(),
        ensures
            match r {
                Step::Got(op, q) => sdec_opcode(buf@, pos as int) == (SpecStep::Got {
                    v: op,
                    end: q as int,
                }) && q <= buf@.len(),
                Step::Short => sdec_opcode(buf@, pos as int) is Short,
                Step::Fail(e, q) => sdec_opcode(buf@, pos as int) == (SpecStep::<Opcode>::Fail {
                    err: e,
                    end: q as int,
                }) && q <= buf@.len(),
            },
    {
        match self.decode_u8(buf, pos) {
            None => Step::Short,
            Some((c, q)) => match Opcode::from_u8(c) {
                Ok(op) => Step::Got(op, q),
                Err(e) => Step::Fail(e, q),
            },
        }
    }

    /// Reads a handshake-status byte at `pos`.
    fn decode_handshake_status(&self, buf: &Vec<u8>, pos: usize) -> (r: Step<HandshakeStatus>)
        requires
            pos <= buf@.len(),
        ensures
            match r {
                Step::Got(s, q) => sdec_handshake_status(buf@, pos as int) == (SpecStep::Got {
                    v: s,
                    end: q as int,
                }) && q <= buf@.len(),
                Step::Short => sdec_handshake_status(buf@, pos as int) is Short,
                Step::Fail(e, q) => sdec_handshake_status(buf@, pos as int) == (SpecStep::<HandshakeStatus>::Fail {
                    err: e,
                    end: q as int,
                }) && q <= buf@.len(),
            },
    {
        match self.decode_u8(buf, pos) {
            None => Step::Short,
            Some((c, q)) => match HandshakeStatus::from_u8(c) {
                Ok(s) => Step::Got(s, q),
                Err(e) => Step::Fail(e, q),
            },
        }
    }

    /// Reads a connection-status byte at `pos`.
    fn decode_connection_status(&self, buf: &Vec<u8>, pos: usize) -> (r: Step<ConnectionStatus>)
        requires
            pos <= buf@.len(),
        ensures
            match r {
                Step::Got(s, q) => sdec_connection_status(buf@, pos as int) == (SpecStep::Got {
                    v: s,
                    end: q as int,
                }) && q <= buf@.len(),
                Step::Short => sdec_connection_status(buf@, pos as int) is Short,
                Step::Fail(e, q) => sdec_connection_status(buf@, pos as int) == (SpecStep::<ConnectionStatus>::Fail {
                    err: e,
                    end: q as int,
                }) && q <= buf@.len(),
            },
    {
        match self.decode_u8(buf, pos) {
            None => Step::Short,
            Some((c, q)) => match ConnectionStatus::from_u8(c) {
                Ok(s) => Step::Got(s, q),
                Err(e) => Step::Fail(e, q),
            },
        }
    }

    /// Reads a disconnection-status byte at `pos`.
    fn decode_disconnection_status(&self, buf: &Vec<u8>, pos: usize) -> (r: Step<
        DisconnectionStatus,
    >)
        requires
            pos <= buf@.len(),
        ensures
            match r {
                Step::Got(s, q) => sdec_disconnection_status(buf@, pos as int) == (SpecStep::Got {
                    v: s,
                    end: q as int,
                }) && q <= buf@.len(),
                Step::Short => sdec_disconnection_status(buf@, pos as int) is Short,
                Step::Fail(e, q) => sdec_disconnection_status(buf@, pos as int) == (SpecStep::<DisconnectionStatus>::Fail {
                    err: e,
                    end: q as int,
                }) && q <= buf@.len(),
            },
    {
        match self.decode_u8(buf, pos) {
            None => Step::Short,
            Some((c, q)) => match DisconnectionStatus::from_u8(c) {
                Ok(s) => Step::Got(s, q),
                Err(e) => Step::Fail(e, q),
            },
        }
    }

    /// Reads one complete frame from the front of the buffer.
    pub fn decode_message(&self, buf: &Vec<u8>) -> (r: Step<Message>)
        ensures
            match r {
                Step::Got(m, q) => sdec_message(buf@) == (SpecStep::Got { v: m@, end: q as int })
                    && 0 < q <= buf@.len(),
                Step::Short => sdec_message(buf@) is Short,
                Step::Fail(e, q) => sdec_message(buf@) == (SpecStep::<MessageView>::Fail { err: e, end: q as int })
                    && 0 < q <= buf@.len(),
            },
    {
        let op = match self.decode_opcode(buf, 0) {
            Step::Got(op, q) => (op, q),
            Step::Short => {
                return Step::Short;
            },
            Step::Fail(e, q) => {
                return Step::Fail(e, q);
            },
        };
        let (op, q) = op;
        match op {
            Opcode::Error => match self.decode_string(buf, q) {
                Step::Got(s, e) => Step::Got(Message::Error(s), e),
                Step::Short => Step::Short,
                Step::Fail(err, e) => Step::Fail(err, e),
            },
            Opcode::CriticalError => match self.decode_string(buf, q) {
                Step::Got(s, e) => Step::Got(Message::CriticalError(s), e),
                Step::Short => Step::Short,
                Step::Fail(err, e) => Step::Fail(err, e),
            },
            Opcode::Ping => match self.decode_u64(buf, q) {
                Some((t, e)) => Step::Got(Message::Ping(t), e),
                None => Step::Short,
            },
            Opcode::Pong => match self.decode_u64(buf, q) {
                Some((t, e)) => Step::Got(Message::Pong(t), e),
                None => Step::Short,
            },
            Opcode::ClientHandshake => match self.decode_string(buf, q) {
                Step::Got(u, q2) => match self.decode_string(buf, q2) {
                    Step::Got(pw, e) => Step::Got(
                        Message::ClientHandshake { username: u, password: pw },
                        e,
                    ),
                    Step::Short => Step::Short,
                    Step::Fail(err, e) => Step::Fail(err, e),
                },
                Step::Short => Step::Short,
                Step::Fail(err, e) => Step::Fail(err, e),
            },
            Opcode::ClientConnect => match self.decode_string(buf, q) {
                Step::Got(u, q2) => match self.decode_string(buf, q2) {
                    Step::Got(pw, e) => Step::Got(
                        Message::ClientConnect { username: u, password: pw },
                        e,
                    ),
                    Step::Short => Step::Short,
                    Step::Fail(err, e) => Step::Fail(err, e),
                },
                Step::Short => Step::Short,
                Step::Fail(err, e) => Step::Fail(err, e),
            },
            Opcode::ClientDisconnect => Step::Got(Message::ClientDisconnect, q),
            Opcode::ClientGoodbye => Step::Got(Message::ClientGoodbye, q),
            Opcode::ServerHandshake => match self.decode_handshake_status(buf, q) {
                Step::Got(s, e) => Step::Got(Message::ServerHandshake(s), e),
                Step::Short => Step::Short,
                Step::Fail(err, e) => Step::Fail(err, e),
            },
            Opcode::ServerConnect => match self.decode_connection_status(buf, q) {
                Step::Got(s, e) => Step::Got(Message::ServerConnect(s), e),
                Step::Short => Step::Short,
                Step::Fail(err, e) => Step::Fail(err, e),
            },
            Opcode::ServerDisconnect => match self.decode_disconnection_status(buf, q) {
                Step::Got(s, e) => Step::Got(Message::ServerDisconnect(s), e),
                Step::Short => Step::Short,
                Step::Fail(err, e) => Step::Fail(err, e),
            },
            Opcode::ServerGoodbye => Step::Got(Message::ServerGoodbye, q),
            Opcode::PairPing => match self.decode_u64(buf, q) {
                Some((t, e)) => Step::Got(Message::PairPing(t), e),
                None => Step::Short,
            },
            Opcode::PairPong => match self.decode_u64(buf, q) {
                Some((t, e)) => Step::Got(Message::PairPong(t), e),
                None => Step::Short,
            },
            Opcode::PairText => match self.decode_string(buf, q) {
                Step::Got(s, e) => Step::Got(Message::PairText(s), e),
                Step::Short => Step::Short,
                Step::Fail(err, e) => Step::Fail(err, e),
            },
            Opcode::PairBinary => match self.decode_bytes(buf, q) {
                Some((bs, e)) => Step::Got(Message::PairBinary(bs), e),
                None => Step::Short,
            },
        }
    }
}


impl Codec {
    /// Appends one byte.
    fn encode_u8(&self, n: u8, out: &mut Vec<u8>)
        ensures
            final(out)@ =~= old(out)@ + seq![n],
    {
        out.push(n);
    }

    /// Appends a `u32`, most significant byte first.
    fn encode_u32(&self, n: u32, out: &mut Vec<u8>)
        ensures
            final(out)@ =~= old(out)@ + be32_bytes(n),
    {
        out.push(#[verifier::truncate] ((n >> 24) as u8));
        out.push(#[verifier::truncate] ((n >> 16) as u8));
        out.push(#[verifier::truncate] ((n >> 8) as u8));
        out.push(#[verifier::truncate] (n as u8));
    }

    /// Appends a `u64`, most significant byte first.
    fn encode_u64(&self, n: u64, out: &mut Vec<u8>)
        ensures
            final(out)@ =~= old(out)@ + be64_bytes(n),
    {
        out.push(#[verifier::truncate] ((n >> 56) as u8));
        out.push(#[verifier::truncate] ((n >> 48) as u8));
        out.push(#[verifier::truncate] ((n >> 40) as u8));
        out.push(#[verifier::truncate] ((n >> 32) as u8));
        out.push(#[verifier::truncate] ((n >> 24) as u8));
        out.push(#[verifier::truncate] ((n >> 16) as u8));
        out.push(#[verifier::truncate] ((n >> 8) as u8));
        out.push(#[verifier::truncate] (n as u8));
    }

    /// Appends every byte of `bytes`.
    fn append_bytes(&self, bytes: &Vec<u8>, out: &mut Vec<u8>)
        ensures
            final(out)@ =~= old(out)@ + bytes@,
    {
        let mut i: usize = 0;
        while i < bytes.len()
            invariant
                i <= bytes@.len(),
                out@ =~= old(out)@ + bytes@.take(i as int),
            decreases bytes@.len() - i,
        {
            out.push(bytes[i]);
            proof {
                assert(old(out)@ + bytes@.take(i as int + 1) =~= (old(out)@ + bytes@.take(
                    i as int,
                )).push(bytes@[i as int]));
            }
            i += 1;
        }
        proof {
            assert(bytes@.take(bytes@.len() as int) =~= bytes@);
        }
    }

    /// Appends a length-prefixed byte string; fails, appending nothing, when
    /// the byte count does not fit the `u32` length prefix.
    fn encode_bytes(&self, bytes: &Vec<u8>, out: &mut Vec<u8>) -> (r: Result<(), ErrorKind>)
        ensures
            r is Ok <==> bytes@.len() <= u32::MAX,
            r is Ok ==> final(out)@ =~= old(out)@ + enc_bytes(bytes@),
            r is Err ==> final(out)@ == old(out)@ && r == Err::<(), ErrorKind>(ErrorKind::BufferOverflow),
    {
        if bytes.len() > u32::MAX as usize {
            return Err(ErrorKind::BufferOverflow);
        }
        self.encode_u32(bytes.len() as u32, out);
        self.append_bytes(bytes, out);
        Ok(())
    }

    /// Appends a length-prefixed UTF-8 string field.
    fn encode_string(&self, s: &str, out: &mut Vec<u8>) -> (r: Result<(), ErrorKind>)
        ensures
            r is Ok <==> encode_utf8(s@).len() <= u32::MAX,
            r is Ok ==> final(out)@ =~= old(out)@ + enc_string(s@),
            r is Err ==> final(out)@ == old(out)@ && r == Err::<(), ErrorKind>(ErrorKind::BufferOverflow),
    {
        let bytes = s.as_bytes_vec();
        self.encode_bytes(&bytes, out)
    }

    /// Appends the opcode byte.
    fn encode_opcode(&self, c: Opcode, out: &mut Vec<u8>)
        ensures
            final(out)@ =~= old(out)@ + seq![opcode_value(c)],
    {
        self.encode_u8(c.as_u8(), out)
    }

    /// Appends a handshake-status byte.
    fn encode_handshake_status(&self, c: HandshakeStatus, out: &mut Vec<u8>)
        ensures
            final(out)@ =~= old(out)@ + seq![handshake_status_value(c)],
    {
        self.encode_u8(c.as_u8(), out)
    }

    /// Appends a connection-status byte.
    fn encode_connection_status(&self, c: ConnectionStatus, out: &mut Vec<u8>)
        ensures
            final(out)@ =~= old(out)@ + seq![connection_status_value(c)],
    {
        self.encode_u8(c.as_u8(), out)
    }

    /// Appends a disconnection-status byte.
    fn encode_disconnection_status(&self, c: DisconnectionStatus, out: &mut Vec<u8>)
        ensures
            final(out)@ =~= old(out)@ + seq![disconnection_status_value(c)],
    {
        self.encode_u8(c.as_u8(), out)
    }

    /// Builds the frame of one message: its opcode byte, then its fields in
    /// declaration order.  Fails exactly when a length-prefixed field is too
    /// long for its `u32` prefix.
    pub fn encode_message(&self, message: &Message) -> (r: Result<Vec<u8>, ErrorKind>)
        ensures
            r is Ok <==> encodable(message@),
            r matches Ok(v) ==> v@ =~= spec_encode(message@),
            r is Err ==> r == Err::<Vec<u8>, ErrorKind>(ErrorKind::BufferOverflow),
    {
        let mut out: Vec<u8> = Vec::new();
        self.encode_opcode(message.opcode(), &mut out);
        let res: Result<(), ErrorKind> = match message {
            Message::Error(s) => self.encode_string(s.as_str(), &mut out),
            Message::CriticalError(s) => self.encode_string(s.as_str(), &mut out),
            Message::Ping(t) => {
                self.encode_u64(*t, &mut out);
                Ok(())
            },
            Message::Pong(t) => {
                self.encode_u64(*t, &mut out);
                Ok(())
            },
            Message::ClientHandshake { username, password } => {
                match self.encode_string(username.as_str(), &mut out) {
                    Ok(()) => self.encode_string(password.as_str(), &mut out),
                    Err(e) => Err(e),
                }
            },
            Message::ClientConnect { username, password } => {
                match self.encode_string(username.as_str(), &mut out) {
                    Ok(()) => self.encode_string(password.as_str(), &mut out),
                    Err(e) => Err(e),
                }
            },
            Message::ClientDisconnect => Ok(()),
            Message::ClientGoodbye => Ok(()),
            Message::ServerHandshake(st) => {
                self.encode_handshake_status(*st, &mut out);
                Ok(())
            },
            Message::ServerConnect(st) => {
                self.encode_connection_status(*st, &mut out);
                Ok(())
            },
            Message::ServerDisconnect(st) => {
                self.encode_disconnection_status(*st, &mut out);
                Ok(())
            },
            Message::ServerGoodbye => Ok(()),
            Message::PairPing(t) => {
                self.encode_u64(*t, &mut out);
                Ok(())
            },
            Message::PairPong(t) => {
                self.encode_u64(*t, &mut out);
                Ok(())
            },
            Message::PairText(s) => self.encode_string(s.as_str(), &mut out),
            Message::PairBinary(bs) => self.encode_bytes(bs, &mut out),
        };
        match res {
            Ok(()) => Ok(out),
            Err(e) => Err(e),
        }
    }
}

/// Decodes at most one message from the front of `buf`.
///
/// On a complete frame the frame's bytes are consumed and the message
/// returned; on an incomplete one nothing is consumed and there is no
/// message yet; on a structural fault the inspected bytes are consumed and
/// the fault returned, so the stream does not stick on a poison sequence.
pub fn decode(buf: &mut bytes::BytesMut) -> (r: Result<Option<Message>, DecodeError>)
    ensures
        ({
            let b = bytes_view(*old(buf));
            match sdec_message(b) {
                SpecStep::Got { v, end } => (r matches Ok(Some(m)) && m@ == v) && bytes_view(
                    *final(buf),
                ) == b.skip(end) && 0 < end <= b.len(),
                SpecStep::Short => r == Ok::<Option<Message>, DecodeError>(None) && bytes_view(
                    *final(buf),
                ) == b,
                SpecStep::Fail { err, end } => r == Err::<Option<Message>, DecodeError>(err)
                    && bytes_view(*final(buf)) == b.skip(end) && 0 < end <= b.len(),
            }
        }),
{
    let v = buf_to_vec(buf);
    let codec = Codec;
    match codec.decode_message(&v) {
        Step::Got(m, used) => {
            buf_advance(buf, used);
            Ok(Some(m))
        },
        Step::Short => Ok(None),
        Step::Fail(e, used) => {
            buf_advance(buf, used);
            Err(e)
        },
    }
}

/// Appends the frame of `msg` to the write buffer.  Fails, appending
/// nothing, exactly when a length-prefixed field of `msg` is too long for
/// its `u32` prefix.
pub fn encode(msg: &Message, buf: &mut bytes::BytesMut) -> (r: Result<(), ErrorKind>)
    ensures
        r is Ok <==> encodable(msg@),
        r is Ok ==> bytes_view(*final(buf)) == bytes_view(*old(buf)) + spec_encode(msg@),
        r is Err ==> bytes_view(*final(buf)) == bytes_view(*old(buf)) && r == Err::<
            (),
            ErrorKind,
        >(ErrorKind::BufferOverflow),
{
    let codec = Codec;
    match codec.encode_message(msg) {
        Ok(v) => {
            buf_extend(buf, v.as_slice());
            proof {
                assert(bytes_view(*buf) =~= bytes_view(*old(buf)) + spec_encode(msg@));
            }
            Ok(())
        },
        Err(e) => Err(e),
    }
}


// ------------------------------------------------------------------
// Laws of the codec
// ------------------------------------------------------------------
proof fn lemma_u64_complete(b: Seq<u8>, p: int, n: u64)
    requires
        0 <= p,
        p + 8 <= b.len(),
        b.subrange(p, p + 8) =~= be64_bytes(n),
    ensures
        sdec_u64(b, p) == (SpecStep::Got { v: n, end: p + 8 }),
{
    lemma_be64_round(n);
}

proof fn lemma_bytes_complete(b: Seq<u8>, p: int, bs: Seq<u8>)
    requires
        0 <= p,
        bs.len() <= u32::MAX,
        p + 4 + bs.len() <= b.len(),
        b.subrange(p, p + 4 + bs.len()) =~= enc_bytes(bs),
    ensures
        sdec_bytes(b, p) == (SpecStep::Got { v: bs, end: p + 4 + bs.len() as int }),
{
    let n32 = bs.len() as u32;
    lemma_be32_round(n32);
    assert(b.subrange(p, p + 4) =~= be32_bytes(n32)) by {
        assert forall|i: int| 0 <= i < 4 implies b.subrange(p, p + 4)[i] == be32_bytes(n32)[i] by {
            assert(b.subrange(p, p + 4)[i] == b.subrange(p, p + 4 + bs.len() as int)[i]);
        }
    }
    assert(b.subrange(p + 4, p + 4 + bs.len()) =~= bs) by {
        assert forall|i: int| 0 <= i < bs.len() implies b.subrange(p + 4, p + 4 + bs.len() as int)[i]
            == bs[i] by {
            assert(b.subrange(p + 4, p + 4 + bs.len() as int)[i] == b.subrange(
                p,
                p + 4 + bs.len() as int,
            )[i + 4]);
            assert(enc_bytes(bs)[i + 4] == bs[i]);
        }
    }
}

proof fn lemma_bytes_short(b: Seq<u8>, p: int, bs: Seq<u8>)
    requires
        0 <= p <= b.len(),
        bs.len() <= u32::MAX,
        b.len() < p + 4 + bs.len(),
        b.subrange(p, b.len() as int) =~= enc_bytes(bs).take(b.len() - p),
    ensures
        sdec_bytes(b, p) is Short,
{
    if p + 4 <= b.len() {
        let n32 = bs.len() as u32;
        lemma_be32_round(n32);
        assert(b.subrange(p, p + 4) =~= be32_bytes(n32)) by {
            assert forall|i: int| 0 <= i < 4 implies b.subrange(p, p + 4)[i] == be32_bytes(n32)[i]
                by {
                assert(b.subrange(p, p + 4)[i] == b.subrange(p, b.len() as int)[i]);
                assert(enc_bytes(bs).take(b.len() - p)[i] == enc_bytes(bs)[i]);
            }
        }
    }
}

proof fn lemma_string_complete(b: Seq<u8>, p: int, s: Seq<char>)
    requires
        0 <= p,
        encode_utf8(s).len() <= u32::MAX,
        p + enc_string(s).len() <= b.len(),
        b.subrange(p, p + enc_string(s).len()) =~= enc_string(s),
    ensures
        sdec_string(b, p) == (SpecStep::Got { v: s, end: p + enc_string(s).len() as int }),
{
    lemma_bytes_complete(b, p, encode_utf8(s));
    encode_utf8_valid_utf8(s);
    encode_utf8_decode_utf8(s);
}

proof fn lemma_string_short(b: Seq<u8>, p: int, s: Seq<char>)
    requires
        0 <= p <= b.len(),
        encode_utf8(s).len() <= u32::MAX,
        b.len() < p + enc_string(s).len(),
        b.subrange(p, b.len() as int) =~= enc_string(s).take(b.len() - p),
    ensures
        sdec_string(b, p) is Short,
{
    lemma_bytes_short(b, p, encode_utf8(s));
}

/// Round-trip law, general form: a buffer that starts with the frame of `m`
/// decodes to exactly `m`, consuming exactly that frame, whatever follows.
#[verifier::rlimit(100)]
#[verifier::spinoff_prover]
pub proof fn lemma_decode_encode(m: MessageView, rest: Seq<u8>)
    requires
        encodable(m),
    ensures
        sdec_message(spec_encode(m) + rest) == (SpecStep::Got {
            v: m,
            end: spec_encode(m).len() as int,
        }),
{
    let e = spec_encode(m);
    let b = e + rest;
    assert(b[0] == opcode_value(msg_opcode(m)));
    match m {
        MessageView::Error(s) => {
            assert(b.subrange(1, 1 + enc_string(s).len() as int) =~= enc_string(s));
            lemma_string_complete(b, 1, s);
        },
        MessageView::CriticalError(s) => {
            assert(b.subrange(1, 1 + enc_string(s).len() as int) =~= enc_string(s));
            lemma_string_complete(b, 1, s);
        },
        MessageView::Ping(t) => {
            assert(b.subrange(1, 9) =~= be64_bytes(t));
            lemma_u64_complete(b, 1, t);
        },
        MessageView::Pong(t) => {
            assert(b.subrange(1, 9) =~= be64_bytes(t));
            lemma_u64_complete(b, 1, t);
        },
        MessageView::ClientHandshake { username, password } => {
            let lu = enc_string(username).len() as int;
            let lp = enc_string(password).len() as int;
            assert(b.subrange(1, 1 + lu) =~= enc_string(username));
            lemma_string_complete(b, 1, username);
            assert(b.subrange(1 + lu, 1 + lu + lp) =~= enc_string(password));
            lemma_string_complete(b, 1 + lu, password);
        },
        MessageView::ClientConnect { username, password } => {
            let lu = enc_string(username).len() as int;
            let lp = enc_string(password).len() as int;
            assert(b.subrange(1, 1 + lu) =~= enc_string(username));
            lemma_string_complete(b, 1, username);
            assert(b.subrange(1 + lu, 1 + lu + lp) =~= enc_string(password));
            lemma_string_complete(b, 1 + lu, password);
        },
        MessageView::ClientDisconnect => {
        },
        MessageView::ClientGoodbye => {
        },
        MessageView::ServerHandshake(st) => {
            assert(b[1] == handshake_status_value(st));
        },
        MessageView::ServerConnect(st) => {
            assert(b[1] == connection_status_value(st));
        },
        MessageView::ServerDisconnect(st) => {
            assert(b[1] == disconnection_status_value(st));
        },
        MessageView::ServerGoodbye => {
        },
        MessageView::PairPing(t) => {
            assert(b.subrange(1, 9) =~= be64_bytes(t));
            lemma_u64_complete(b, 1, t);
        },
        MessageView::PairPong(t) => {
            assert(b.subrange(1, 9) =~= be64_bytes(t));
            lemma_u64_complete(b, 1, t);
        },
        MessageView::PairText(s) => {
            assert(b.subrange(1, 1 + enc_string(s).len() as int) =~= enc_string(s));
            lemma_string_complete(b, 1, s);
        },
        MessageView::PairBinary(bs) => {
            assert(b.subrange(1, 1 + 4 + bs.len() as int) =~= enc_bytes(bs));
            lemma_bytes_complete(b, 1, bs);
        },
    }
}

/// Round-trip law: decoding the frame of `m` yields exactly `m` and consumes
/// the whole frame.
pub proof fn lemma_round_trip(m: MessageView)
    requires
        encodable(m),
    ensures
        sdec_message(spec_encode(m)) == (SpecStep::Got {
            v: m,
            end: spec_encode(m).len() as int,
        }),
{
    lemma_decode_encode(m, Seq::empty());
    assert(spec_encode(m) + Seq::<u8>::empty() =~= spec_encode(m));
}

/// Partial-frame idempotence: every strict prefix of a frame decodes to "no
/// message yet", which consumes nothing.
#[verifier::rlimit(100)]
#[verifier::spinoff_prover]
pub proof fn lemma_decode_prefix(m: MessageView, n: int)
    requires
        encodable(m),
        0 <= n < spec_encode(m).len(),
    ensures
        sdec_message(spec_encode(m).take(n)) is Short,
{
    let e = spec_encode(m);
    let b = e.take(n);
    if n > 0 {
        assert(b[0] == opcode_value(msg_opcode(m)));
        match m {
            MessageView::Error(s) => {
                assert(b.subrange(1, n) =~= enc_string(s).take(n - 1));
                lemma_string_short(b, 1, s);
            },
            MessageView::CriticalError(s) => {
                assert(b.subrange(1, n) =~= enc_string(s).take(n - 1));
                lemma_string_short(b, 1, s);
            },
            MessageView::Ping(t) => {
            },
            MessageView::Pong(t) => {
            },
            MessageView::ClientHandshake { username, password } => {
                let lu = enc_string(username).len() as int;
                if n < 1 + lu {
                    assert(b.subrange(1, n) =~= enc_string(username).take(n - 1));
                    lemma_string_short(b, 1, username);
                } else {
                    assert(b.subrange(1, 1 + lu) =~= enc_string(username));
                    lemma_string_complete(b, 1, username);
                    assert(b.subrange(1 + lu, n) =~= enc_string(password).take(n - (1 + lu)));
                    lemma_string_short(b, 1 + lu, password);
                }
            },
            MessageView::ClientConnect { username, password } => {
                let lu = enc_string(username).len() as int;
                if n < 1 + lu {
                    assert(b.subrange(1, n) =~= enc_string(username).take(n - 1));
                    lemma_string_short(b, 1, username);
                } else {
                    assert(b.subrange(1, 1 + lu) =~= enc_string(username));
                    lemma_string_complete(b, 1, username);
                    assert(b.subrange(1 + lu, n) =~= enc_string(password).take(n - (1 + lu)));
                    lemma_string_short(b, 1 + lu, password);
                }
            },
            MessageView::ClientDisconnect => {
            },
            MessageView::ClientGoodbye => {
            },
            MessageView::ServerHandshake(st) => {
            },
            MessageView::ServerConnect(st) => {
            },
            MessageView::ServerDisconnect(st) => {
            },
            MessageView::ServerGoodbye => {
            },
            MessageView::PairPing(t) => {
            },
            MessageView::PairPong(t) => {
            },
            MessageView::PairText(s) => {
                assert(b.subrange(1, n) =~= enc_string(s).take(n - 1));
                lemma_string_short(b, 1, s);
            },
            MessageView::PairBinary(bs) => {
                assert(b.subrange(1, n) =~= enc_bytes(bs).take(n - 1));
                lemma_bytes_short(b, 1, bs);
            },
        }
    }
}

/// Unknown opcode: a buffer whose first byte is not a mapped opcode decodes
/// to exactly that fault, consuming the one inspected byte.
pub proof fn lemma_unknown_opcode(b: Seq<u8>)
    requires
        b.len() > 0,
        opcode_from_byte(b[0]) is None,
    ensures
        sdec_message(b) == (SpecStep::<MessageView>::Fail {
            err: DecodeError::UnknownOpcode(b[0]),
            end: 1,
        }),
{
}


/// The UTF-8 encoding of a character sequence takes at most four bytes per
/// character.
pub proof fn lemma_encode_utf8_len(chars: Seq<char>)
    ensures
        encode_utf8(chars).len() <= 4 * chars.len(),
    decreases chars.len(),
{
    if chars.len() > 0 {
        lemma_encode_utf8_len(chars.drop_first());
    }
}

} // verus!
