//! One connection: its buffers, its protocol state, and the identity it
//! committed at handshake.
//!
//! A connection is created on accept in the `Handshake` state.  Raw bytes
//! read from its socket accumulate in the read buffer; encoded replies
//! accumulate in the write buffer until the socket will take them.  The
//! state machine is `Handshake` then `Pairing`, with the terminal states
//! `Error` (a final message is queued; the connection lives only until the
//! write buffer drains) and `Dead` (no further I/O at all).
use vstd::prelude::*;

use crate::bytebuf::{buf_advance, buf_len, buf_to_vec, buf_with_capacity, buf_extend, bytes_view};
use crate::codec::{encodable, encode, spec_encode};
use crate::config::{
    CONNECTION_READ_BUF_CAPACITY,
    CONNECTION_READ_BUF_MAX_CAPACITY,
    CONNECTION_WRITE_BUF_CAPACITY,
};
use crate::error::{error_text, lemma_error_text_encodable, ErrorKind};
use crate::protocol::{Message, MessageView};

verus! {

/// The protocol state of one connection.
#[derive(Debug, Copy, Clone, PartialEq, Eq, Structural)]
pub enum ClientState {
    /// Waiting for `ClientHandshake`; no identity committed yet.
    Handshake,
    /// Identity committed; the pairing channel is open.
    Pairing,
    /// A final message is queued; the connection closes once the write
    /// buffer has drained.
    Error,
    /// Terminal: no further I/O is attempted.
    Dead,
}

/// The identity a connection committed at a successful handshake; created
/// once and immutable for the life of the connection.
#[derive(Debug, Clone)]
pub struct ClientData {
    pub username: String,
    pub password: String,
}

/// One connection: a stable token, the two buffers, the protocol state, and
/// the identity once committed.
#[derive(Debug)]
pub struct Client {
    pub token: usize,
    pub read_buf: bytes::BytesMut,
    pub write_buf: bytes::BytesMut,
    pub state: ClientState,
    pub data: Option<ClientData>,
}


/// The mathematical shape of one connection: its buffer contents, protocol
/// state, and committed identity as plain values.
pub struct ClientModel {
    pub read: Seq<u8>,
    pub write: Seq<u8>,
    pub state: ClientState,
    pub data: Option<(Seq<char>, Seq<char>)>,
}

/// The model of a connection value.
pub open spec fn client_model(c: Client) -> ClientModel {
    ClientModel {
        read: bytes_view(c.read_buf),
        write: bytes_view(c.write_buf),
        state: c.state,
        data: match c.data {
            Some(d) => Some((d.username@, d.password@)),
            None => None,
        },
    }
}

/// A connection that has not finished its handshake has no committed
/// identity.
pub open spec fn client_wf(c: Client) -> bool {
    c.state == ClientState::Handshake ==> c.data is None
}

impl Client {
    /// A fresh connection in the `Handshake` state with empty buffers.
    pub fn new(token: usize) -> (c: Client)
        ensures
            c.token == token,
            c.state == ClientState::Handshake,
            c.data is None,
            bytes_view(c.read_buf) == Seq::<u8>::empty(),
            bytes_view(c.write_buf) == Seq::<u8>::empty(),
            client_wf(c),
    {
        Client {
            token,
            read_buf: buf_with_capacity(CONNECTION_READ_BUF_CAPACITY),
            write_buf: buf_with_capacity(CONNECTION_WRITE_BUF_CAPACITY),
            state: ClientState::Handshake,
            data: None,
        }
    }

    /// Queues one encoded message on the write buffer; handlers never block
    /// on network readiness.
    pub fn send_message(&mut self, msg: &Message)
        requires
            encodable(msg@),
        ensures
            final(self).token == old(self).token,
            final(self).state == old(self).state,
            final(self).data == old(self).data,
            bytes_view(final(self).read_buf) == bytes_view(old(self).read_buf),
            bytes_view(final(self).write_buf) == bytes_view(old(self).write_buf) + spec_encode(
                msg@,
            ),
    {
        match encode(msg, &mut self.write_buf) {
            Ok(_) => {
            },
            Err(_) => {
                proof {
                    assert(false);
                }
            },
        }
    }

    /// Queues a final `Error` message describing `e` and moves to the
    /// `Error` state; the connection stays open only until the write buffer
    /// drains.
    pub fn error(&mut self, e: ErrorKind)
        ensures
            final(self).token == old(self).token,
            final(self).state == ClientState::Error,
            final(self).data == old(self).data,
            bytes_view(final(self).read_buf) == bytes_view(old(self).read_buf),
            bytes_view(final(self).write_buf) == bytes_view(old(self).write_buf) + spec_encode(
                MessageView::Error(error_text(e)),
            ),
    {
        proof {
            lemma_error_text_encodable(e);
        }
        let text = e.text();
        let msg = Message::Error(text);
        self.send_message(&msg);
        self.state = ClientState::Error;
    }

    /// Takes one chunk read from the socket.  In a live state the chunk is
    /// appended to the read buffer, unless that would push the buffered
    /// input past the hard ceiling: that is the fatal buffer-overflow
    /// condition for this connection, reported once, and the chunk is
    /// dropped.  In a terminal state the chunk is ignored.
    pub fn push_chunk(&mut self, chunk: &[u8])
        ensures
            final(self).token == old(self).token,
            final(self).data == old(self).data,
            (old(self).state == ClientState::Error || old(self).state == ClientState::Dead)
                ==> *final(self) == *old(self),
            (old(self).state == ClientState::Handshake || old(self).state == ClientState::Pairing)
                ==> if bytes_view(old(self).read_buf).len() + chunk@.len()
                <= CONNECTION_READ_BUF_MAX_CAPACITY {
                &&& final(self).state == old(self).state
                &&& bytes_view(final(self).read_buf) == bytes_view(old(self).read_buf) + chunk@
                &&& bytes_view(final(self).write_buf) == bytes_view(old(self).write_buf)
            } else {
                &&& final(self).state == ClientState::Error
                &&& bytes_view(final(self).read_buf) == bytes_view(old(self).read_buf)
                &&& bytes_view(final(self).write_buf) == bytes_view(old(self).write_buf)
                    + spec_encode(MessageView::Error(error_text(ErrorKind::BufferOverflow)))
            },
    {
        match self.state {
            ClientState::Error => {
            },
            ClientState::Dead => {
            },
            _ => {
                let len = buf_len(&self.read_buf);
                if len <= CONNECTION_READ_BUF_MAX_CAPACITY && chunk.len() <= CONNECTION_READ_BUF_MAX_CAPACITY - len {
                    buf_extend(&mut self.read_buf, chunk);
                } else {
                    self.error(ErrorKind::BufferOverflow);
                }
            },
        }
    }

    /// A zero-byte socket read: the peer closed, and the connection dies at
    /// once, whatever unread bytes or pending decode state it still holds.
    pub fn on_peer_closed(&mut self)
        ensures
            final(self).token == old(self).token,
            final(self).data == old(self).data,
            final(self).state == ClientState::Dead,
            bytes_view(final(self).read_buf) == bytes_view(old(self).read_buf),
            bytes_view(final(self).write_buf) == bytes_view(old(self).write_buf),
    {
        self.state = ClientState::Dead;
    }

    /// The bytes awaiting flush, front first, for the reactor to offer to
    /// the socket.
    pub fn pending_write(&self) -> (r: Vec<u8>)
        ensures
            r@ == bytes_view(self.write_buf),
    {
        buf_to_vec(&self.write_buf)
    }

    /// Front-trims the write buffer by the number of bytes the socket
    /// actually accepted; partially written data stays buffered.
    pub fn did_write(&mut self, amt: usize)
        ensures
            final(self).token == old(self).token,
            final(self).state == old(self).state,
            final(self).data == old(self).data,
            bytes_view(final(self).read_buf) == bytes_view(old(self).read_buf),
            amt <= bytes_view(old(self).write_buf).len() ==> bytes_view(final(self).write_buf)
                == bytes_view(old(self).write_buf).skip(amt as int),
            amt > bytes_view(old(self).write_buf).len() ==> bytes_view(final(self).write_buf)
                == Seq::<u8>::empty(),
    {
        let len = buf_len(&self.write_buf);
        let n = if amt < len {
            amt
        } else {
            len
        };
        buf_advance(&mut self.write_buf, n);
        proof {
            if amt > bytes_view(self.write_buf).len() {
            }
            assert(bytes_view(old(self).write_buf).skip(
                bytes_view(old(self).write_buf).len() as int,
            ) =~= Seq::<u8>::empty());
        }
    }

    /// True exactly when the reactor must reap this connection: it is
    /// `Dead`, or it is in the `Error` state and every queued byte has been
    /// flushed.  An `Error` connection with unflushed bytes stays.
    pub fn should_reap(&self) -> (r: bool)
        ensures
            r == (self.state == ClientState::Dead || (self.state == ClientState::Error
                && bytes_view(self.write_buf).len() == 0)),
    {
        match self.state {
            ClientState::Dead => true,
            ClientState::Error => buf_len(&self.write_buf) == 0,
            _ => false,
        }
    }
}

} // verus!
