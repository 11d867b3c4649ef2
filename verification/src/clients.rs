//! The connection registry: a dense slot array with free-list reuse, mapping
//! small integer tokens to connections, together with the per-connection
//! message handling that needs to see the whole registry (the
//! username-uniqueness check of the handshake).
//!
//! Tokens are reused: a removed connection's slot goes on the free list and
//! the next accept may hand the token out again, so callers must not retain
//! a token past the current dispatch.
use vstd::prelude::*;

use crate::bytebuf::bytes_view;
use crate::codec::{decode, sdec_message, spec_encode, SpecStep};
use crate::config::{CONNECTIONS_CAPACITY, CONNECTION_READ_BUF_MAX_CAPACITY};
use crate::error::{error_text, DecodeError, ErrorKind};
use crate::protocol::{HandshakeStatus, Message, MessageView};
use crate::server::{client_model, client_wf, Client, ClientData, ClientModel, ClientState};

verus! {



/// True when some connection of the model has committed `name` as its
/// username.
pub open spec fn model_username_taken(reg: Seq<Option<ClientModel>>, name: Seq<char>) -> bool {
    exists|i: int|
        0 <= i < reg.len() && (#[trigger] reg[i]) is Some && (reg[i]->0).data is Some && ((
        reg[i]->0).data->0).0 == name
}

/// One step of the per-connection state machine, as a function of the
/// registry model, the connection's model, and the message: the new state,
/// the new identity, the reply frame queued, and the message handed out to
/// the pairing collaborator, if any.
pub open spec fn spec_transition(
    reg: Seq<Option<ClientModel>>,
    c: ClientModel,
    m: MessageView,
    close_on_duplicate: bool,
) -> (ClientState, Option<(Seq<char>, Seq<char>)>, Seq<u8>, Option<MessageView>) {
    match c.state {
        ClientState::Handshake => match m {
            MessageView::ClientHandshake { username, password } => if !model_username_taken(
                reg,
                username,
            ) {
                (
                    ClientState::Pairing,
                    Some((username, password)),
                    spec_encode(MessageView::ServerHandshake(HandshakeStatus::Okay)),
                    None,
                )
            } else {
                (
                    if close_on_duplicate {
                        ClientState::Error
                    } else {
                        ClientState::Handshake
                    },
                    c.data,
                    spec_encode(MessageView::ServerHandshake(HandshakeStatus::UserExists)),
                    None,
                )
            },
            _ => (
                ClientState::Error,
                c.data,
                spec_encode(MessageView::Error(error_text(ErrorKind::AuthorizationRequired))),
                None,
            ),
        },
        ClientState::Pairing => (ClientState::Pairing, c.data, Seq::<u8>::empty(), Some(m)),
        ClientState::Error => (c.state, c.data, Seq::<u8>::empty(), None),
        ClientState::Dead => (c.state, c.data, Seq::<u8>::empty(), None),
    }
}

/// The whole decode-dispatch loop for one connection, as a function of the
/// registry model: frames are taken off the front of the read buffer and
/// put through [`spec_transition`] one by one, in arrival order, until no
/// complete frame remains, a decode fault queues the error reply and moves
/// to `Error`, or a handled message has left a terminal state.  The second
/// component is the sequence handed out to the pairing collaborator.
pub open spec fn spec_drain(
    reg: Seq<Option<ClientModel>>,
    tok: int,
    close_on_duplicate: bool,
) -> (Seq<Option<ClientModel>>, Seq<MessageView>)
    decreases (if 0 <= tok < reg.len() && reg[tok] is Some {
        (reg[tok]->0).read.len()
    } else {
        0
    }),
{
    if !(0 <= tok < reg.len() && reg[tok] is Some) {
        (reg, Seq::<MessageView>::empty())
    } else {
        let c = reg[tok]->0;
        if c.state != ClientState::Handshake && c.state != ClientState::Pairing {
            (reg, Seq::<MessageView>::empty())
        } else {
            match sdec_message(c.read) {
                SpecStep::Short => (reg, Seq::<MessageView>::empty()),
                SpecStep::Fail { err, end } => {
                    let c2 = ClientModel {
                        read: if 0 <= end <= c.read.len() {
                            c.read.skip(end)
                        } else {
                            c.read
                        },
                        write: c.write + spec_encode(
                            MessageView::Error(error_text(ErrorKind::Decode(err))),
                        ),
                        state: ClientState::Error,
                        data: c.data,
                    };
                    (reg.update(tok, Some(c2)), Seq::<MessageView>::empty())
                },
                SpecStep::Got { v, end } => {
                    if 1 <= end <= c.read.len() {
                        let t = spec_transition(reg, c, v, close_on_duplicate);
                        let c2 = ClientModel {
                            read: c.read.skip(end),
                            write: c.write + t.2,
                            state: t.0,
                            data: t.1,
                        };
                        let reg2 = reg.update(tok, Some(c2));
                        let r = spec_drain(reg2, tok, close_on_duplicate);
                        (
                            r.0,
                            (match t.3 {
                                Some(mv) => seq![mv],
                                None => Seq::<MessageView>::empty(),
                            }) + r.1,
                        )
                    } else {
                        (reg, Seq::<MessageView>::empty())
                    }
                },
            }
        }
    }
}


/// The views of a sequence of messages.
pub open spec fn views_of(msgs: Seq<Message>) -> Seq<MessageView> {
    msgs.map_values(|mm: Message| mm@)
}

/// The executable uniqueness check agrees with the model-level one.
proof fn lemma_username_taken_model(reg: &Clients, name: Seq<char>)
    ensures
        reg.username_taken(name) == model_username_taken(reg.model(), name),
{
    if reg.username_taken(name) {
        let i = choose|i: int|
            0 <= i < reg.slots@.len() && (#[trigger] reg.slots@[i]) is Some && (
            reg.slots@[i]->0).data is Some && ((reg.slots@[i]->0).data->0).username@ == name;
        assert(reg.model()[i] is Some && (reg.model()[i]->0).data is Some && ((
        reg.model()[i]->0).data->0).0 == name);
    }
    if model_username_taken(reg.model(), name) {
        let i = choose|i: int|
            0 <= i < reg.model().len() && (#[trigger] reg.model()[i]) is Some && (
            reg.model()[i]->0).data is Some && ((reg.model()[i]->0).data->0).0 == name;
        assert(reg.slots@[i] is Some && (reg.slots@[i]->0).data is Some && ((
        reg.slots@[i]->0).data->0).username@ == name);
    }
}

/// Whether a username is taken depends only on the committed identities,
/// not on any connection's buffers or state.
proof fn lemma_model_taken_same_data(
    r1: Seq<Option<ClientModel>>,
    r2: Seq<Option<ClientModel>>,
    name: Seq<char>,
)
    requires
        r1.len() == r2.len(),
        forall|i: int| 0 <= i < r1.len() ==> ((#[trigger] r1[i]) is Some <==> r2[i] is Some),
        forall|i: int|
            0 <= i < r1.len() && (#[trigger] r1[i]) is Some ==> (r1[i]->0).data == (
            r2[i]->0).data,
    ensures
        model_username_taken(r1, name) == model_username_taken(r2, name),
{
    if model_username_taken(r1, name) {
        let i = choose|i: int|
            0 <= i < r1.len() && (#[trigger] r1[i]) is Some && (r1[i]->0).data is Some && ((
            r1[i]->0).data->0).0 == name;
        assert(r2[i] is Some && (r2[i]->0).data is Some && ((r2[i]->0).data->0).0 == name);
    }
    if model_username_taken(r2, name) {
        let i = choose|i: int|
            0 <= i < r2.len() && (#[trigger] r2[i]) is Some && (r2[i]->0).data is Some && ((
            r2[i]->0).data->0).0 == name;
        assert(r1[i] is Some && (r1[i]->0).data is Some && ((r1[i]->0).data->0).0 == name);
    }
}

/// All live connections, indexed by token.
///
/// `slots` is the dense array; `free` lists the empty slots available for
/// reuse.  `close_on_duplicate` is the policy for a handshake that presents
/// a username already taken: reject-and-retry when false (the connection
/// stays in `Handshake`), reject-and-close when true.
#[derive(Debug)]
pub struct Clients {
    pub slots: Vec<Option<Client>>,
    pub free: Vec<usize>,
    pub close_on_duplicate: bool,
}

impl Clients {
    /// The registry's structural invariant: the free list names exactly the
    /// empty slots, without repetition, and every held connection carries
    /// its own token.
    pub open spec fn wf(&self) -> bool {
        &&& self.slots@.len() <= CONNECTIONS_CAPACITY
        &&& (forall|i: int|
            0 <= i < self.free@.len() ==> (#[trigger] self.free@[i]) < self.slots@.len()
                && self.slots@[self.free@[i] as int] is None)
        &&& (forall|i: int, j: int|
            #![trigger self.free@[i], self.free@[j]]
            0 <= i < j < self.free@.len() ==> self.free@[i] != self.free@[j])
        &&& (forall|k: int|
            0 <= k < self.slots@.len() && (#[trigger] self.slots@[k]) is None
                ==> self.free@.contains(k as usize))
        &&& (forall|k: int|
            0 <= k < self.slots@.len() && (#[trigger] self.slots@[k]) is Some ==> (
            self.slots@[k]->0).token == k && client_wf(self.slots@[k]->0))
    }

    /// True when `tok` names a live connection.
    pub open spec fn live(&self, tok: int) -> bool {
        0 <= tok < self.slots@.len() && self.slots@[tok] is Some
    }

    /// The connection at a live token.
    pub open spec fn client_at(&self, tok: int) -> Client
        recommends
            self.live(tok),
    {
        self.slots@[tok]->0
    }

    /// True when some live connection has committed `name` as its username.
    pub open spec fn username_taken(&self, name: Seq<char>) -> bool {
        exists|i: int|
            0 <= i < self.slots@.len() && (#[trigger] self.slots@[i]) is Some && (
            self.slots@[i]->0).data is Some && ((self.slots@[i]->0).data->0).username@ == name
    }

    /// The username-uniqueness invariant: among live connections with a
    /// committed identity, usernames are pairwise distinct.
    pub open spec fn usernames_unique(&self) -> bool {
        forall|i: int, j: int|
            #![trigger self.slots@[i], self.slots@[j]]
            0 <= i < self.slots@.len() && 0 <= j < self.slots@.len() && i != j
                && self.slots@[i] is Some && (self.slots@[i]->0).data is Some
                && self.slots@[j] is Some && (self.slots@[j]->0).data is Some
                ==> ((self.slots@[i]->0).data->0).username@ != ((
            self.slots@[j]->0).data->0).username@
    }


    /// The registry's mathematical shape: each slot's connection model.
    pub open spec fn model(&self) -> Seq<Option<ClientModel>> {
        Seq::new(
            self.slots@.len(),
            |i: int|
                match self.slots@[i] {
                    Some(c) => Some(client_model(c)),
                    None => None,
                },
        )
    }

    /// An empty registry with the reject-and-retry duplicate policy.
    pub fn new() -> (r: Clients)
        ensures
            r.wf(),
            r.usernames_unique(),
            r.slots@.len() == 0,
            r.free@.len() == 0,
            !r.close_on_duplicate,
    {
        Clients { slots: Vec::new(), free: Vec::new(), close_on_duplicate: false }
    }

    /// An empty registry with the duplicate-username policy chosen by the
    /// caller: reject-and-retry when false, reject-and-close when true.
    pub fn with_policy(close_on_duplicate: bool) -> (r: Clients)
        ensures
            r.wf(),
            r.usernames_unique(),
            r.slots@.len() == 0,
            r.free@.len() == 0,
            r.close_on_duplicate == close_on_duplicate,
    {
        Clients { slots: Vec::new(), free: Vec::new(), close_on_duplicate }
    }

    /// Adds a fresh connection in the `Handshake` state, reusing a free slot
    /// when one exists; returns its token, or `None` when the registry is
    /// full (that accept is dropped; existing connections are unaffected).
    pub fn insert(&mut self) -> (r: Option<usize>)
        requires
            old(self).wf(),
        ensures
            final(self).wf(),
            final(self).close_on_duplicate == old(self).close_on_duplicate,
            old(self).usernames_unique() ==> final(self).usernames_unique(),
            match r {
                Some(tok) => {
                    &&& !old(self).live(tok as int)
                    &&& final(self).live(tok as int)
                    &&& ({
                        let c = final(self).client_at(tok as int);
                        &&& c.token == tok
                        &&& c.state == ClientState::Handshake
                        &&& c.data is None
                        &&& bytes_view(c.read_buf) == Seq::<u8>::empty()
                        &&& bytes_view(c.write_buf) == Seq::<u8>::empty()
                    })
                    &&& (forall|j: int|
                        0 <= j < old(self).slots@.len() && j != tok ==> final(self).slots@[j]
                            == old(self).slots@[j])
                    &&& old(self).slots@.len() <= final(self).slots@.len() == if (tok as int)
                        < old(self).slots@.len() as int {
                        old(self).slots@.len() as int
                    } else {
                        old(self).slots@.len() as int + 1
                    }
                },
                None => {
                    &&& final(self).slots@ == old(self).slots@
                    &&& final(self).free@ == old(self).free@
                    &&& old(self).free@.len() == 0
                    &&& old(self).slots@.len() == CONNECTIONS_CAPACITY
                },
            },
    {
        match self.free.pop() {
            Some(tok) => {
                let ghost old_free = old(self).free@;
                let c = Client::new(tok);
                let slot = &mut self.slots[tok];
                *slot = Some(c);
                proof {
                    assert forall|k: int|
                        0 <= k < self.slots@.len() && (#[trigger] self.slots@[k])
                            is None implies self.free@.contains(k as usize) by {
                        assert(old(self).slots@[k] is None);
                        assert(old_free.contains(k as usize));
                        let idx = choose|idx: int|
                            0 <= idx < old_free.len() && old_free[idx] == k as usize;
                        assert(k != tok);
                        assert(idx < old_free.len() - 1);
                        assert(self.free@[idx] == k as usize);
                    }
                }
                Some(tok)
            },
            None => {
                if self.slots.len() < CONNECTIONS_CAPACITY {
                    let tok = self.slots.len();
                    let c = Client::new(tok);
                    self.slots.push(Some(c));
                    proof {
                        assert forall|k: int|
                            0 <= k < self.slots@.len() && (#[trigger] self.slots@[k])
                                is None implies self.free@.contains(k as usize) by {
                            assert(old(self).slots@[k] is None);
                        }
                    }
                    Some(tok)
                } else {
                    None
                }
            },
        }
    }

    /// The connection at `tok`, if it is live.
    pub fn get(&self, tok: usize) -> (r: Option<&Client>)
        ensures
            match r {
                Some(c) => self.live(tok as int) && *c == self.client_at(tok as int),
                None => !self.live(tok as int),
            },
    {
        if tok < self.slots.len() {
            self.slots[tok].as_ref()
        } else {
            None
        }
    }

    /// Removes the connection at `tok`, returning its slot to the free
    /// list; asking about an already-reaped token does nothing.
    pub fn remove(&mut self, tok: usize)
        requires
            old(self).wf(),
        ensures
            final(self).wf(),
            final(self).close_on_duplicate == old(self).close_on_duplicate,
            old(self).usernames_unique() ==> final(self).usernames_unique(),
            final(self).slots@.len() == old(self).slots@.len(),
            old(self).live(tok as int) ==> final(self).slots@ == old(self).slots@.update(
                tok as int,
                None,
            ),
            !old(self).live(tok as int) ==> final(self).slots@ == old(self).slots@
                && final(self).free@ == old(self).free@,
    {
        if tok >= self.slots.len() {
            return ;
        }
        if self.slots[tok].is_some() {
            let slot = &mut self.slots[tok];
            *slot = None;
            self.free.push(tok);
            proof {
                assert(self.free@ == old(self).free@.push(tok));
                assert forall|i: int, j: int|
                    #![trigger self.free@[i], self.free@[j]]
                    0 <= i < j < self.free@.len() implies self.free@[i] != self.free@[j] by {
                    if j == self.free@.len() - 1 {
                        assert(self.free@[j] == tok);
                        assert(old(self).slots@[old(self).free@[i] as int] is None);
                    }
                }
                assert forall|k: int|
                    0 <= k < self.slots@.len() && (#[trigger] self.slots@[k])
                        is None implies self.free@.contains(k as usize) by {
                    if k == tok as int {
                        assert(self.free@[self.free@.len() - 1] == tok);
                    } else {
                        assert(old(self).slots@[k] is None);
                        let idx = choose|idx: int|
                            0 <= idx < old(self).free@.len() && old(self).free@[idx]
                                == k as usize;
                        assert(self.free@[idx] == k as usize);
                    }
                }
                assert(final(self).slots@ =~= old(self).slots@.update(tok as int, None));
            }
        }
    }

    /// True when no live connection has committed `new_username`; the
    /// handshake checks this against the entire registry before committing
    /// an identity.
    pub fn is_username_unique(&self, new_username: &str) -> (r: bool)
        ensures
            r == !self.username_taken(new_username@),
    {
        let name = String::from_str(new_username);
        let n = self.slots.len();
        let mut i: usize = 0;
        while i < n
            invariant
                n == self.slots@.len(),
                i <= n,
                name@ == new_username@,
                forall|k: int|
                    0 <= k < i ==> !((#[trigger] self.slots@[k]) is Some && (
                    self.slots@[k]->0).data is Some && ((
                    self.slots@[k]->0).data->0).username@ == new_username@),
            decreases n - i,
        {
            match &self.slots[i] {
                Some(c) => match &c.data {
                    Some(d) => {
                        if d.username == name {
                            return false;
                        }
                    },
                    None => {
                    },
                },
                None => {
                },
            }
            i += 1;
        }
        true
    }
    /// Handles one message for a connection still in the `Handshake` state.
    ///
    /// `ClientHandshake` commits the identity when its username is free of
    /// the whole registry (reply `ServerHandshake(Okay)`, move to
    /// `Pairing`); a taken username is rejected with
    /// `ServerHandshake(UserExists)`, after which the connection stays in
    /// `Handshake` awaiting a retry, or closes under the stricter
    /// `close_on_duplicate` policy.  Any other message is a protocol
    /// violation answered with a final `Error`.
    pub fn handle_handshake_message(&mut self, tok: usize, msg: Message)
        requires
            old(self).wf(),
            old(self).live(tok as int),
            old(self).client_at(tok as int).state == ClientState::Handshake,
        ensures
            final(self).wf(),
            final(self).close_on_duplicate == old(self).close_on_duplicate,
            final(self).slots@.len() == old(self).slots@.len(),
            final(self).free@ == old(self).free@,
            forall|j: int|
                0 <= j < old(self).slots@.len() && j != tok as int ==> final(self).slots@[j]
                    == old(self).slots@[j],
            final(self).live(tok as int),
            old(self).usernames_unique() ==> final(self).usernames_unique(),
            ({
                let c = old(self).client_at(tok as int);
                let c2 = final(self).client_at(tok as int);
                &&& c2.token == c.token
                &&& bytes_view(c2.read_buf) == bytes_view(c.read_buf)
                &&& match msg@ {
                    MessageView::ClientHandshake { username, password } => if !old(
                        self,
                    ).username_taken(username) {
                        &&& c2.state == ClientState::Pairing
                        &&& c2.data is Some
                        &&& (c2.data->0).username@ == username
                        &&& (c2.data->0).password@ == password
                        &&& bytes_view(c2.write_buf) == bytes_view(c.write_buf) + spec_encode(
                            MessageView::ServerHandshake(HandshakeStatus::Okay),
                        )
                    } else {
                        &&& c2.state == (if old(self).close_on_duplicate {
                            ClientState::Error
                        } else {
                            ClientState::Handshake
                        })
                        &&& c2.data is None
                        &&& bytes_view(c2.write_buf) == bytes_view(c.write_buf) + spec_encode(
                            MessageView::ServerHandshake(HandshakeStatus::UserExists),
                        )
                    },
                    _ => {
                        &&& c2.state == ClientState::Error
                        &&& c2.data is None
                        &&& bytes_view(c2.write_buf) == bytes_view(c.write_buf) + spec_encode(
                            MessageView::Error(error_text(ErrorKind::AuthorizationRequired)),
                        )
                    },
                }
            }),
    {
        match msg {
            Message::ClientHandshake { username, password } => {
                let unique = self.is_username_unique(username.as_str());
                let policy = self.close_on_duplicate;
                let ghost uname = username@;
                let slot = &mut self.slots[tok];
                match slot {
                    Some(c) => {
                        if unique {
                            c.data = Some(ClientData { username, password });
                            c.state = ClientState::Pairing;
                            let reply = Message::ServerHandshake(HandshakeStatus::Okay);
                            c.send_message(&reply);
                        } else {
                            let reply = Message::ServerHandshake(HandshakeStatus::UserExists);
                            c.send_message(&reply);
                            if policy {
                                c.state = ClientState::Error;
                            }
                        }
                    },
                    None => {
                    },
                }
                proof {
                    if old(self).usernames_unique() {
                        assert forall|i: int, j: int|
                            #![trigger self.slots@[i], self.slots@[j]]
                            0 <= i < self.slots@.len() && 0 <= j < self.slots@.len() && i != j
                                && self.slots@[i] is Some && (self.slots@[i]->0).data is Some
                                && self.slots@[j] is Some && (self.slots@[j]->0).data
                                is Some implies ((self.slots@[i]->0).data->0).username@ != ((
                        self.slots@[j]->0).data->0).username@ by {
                            if i == tok as int {
                                assert(self.slots@[j] == old(self).slots@[j]);
                                if ((self.slots@[j]->0).data->0).username@ == uname {
                                    assert(old(self).slots@[j] is Some && (old(
                                        self,
                                    ).slots@[j]->0).data is Some && ((old(
                                        self,
                                    ).slots@[j]->0).data->0).username@ == uname);
                                    assert(old(self).username_taken(uname));
                                }
                            } else if j == tok as int {
                                assert(self.slots@[i] == old(self).slots@[i]);
                                if ((self.slots@[i]->0).data->0).username@ == uname {
                                    assert(old(self).slots@[i] is Some && (old(
                                        self,
                                    ).slots@[i]->0).data is Some && ((old(
                                        self,
                                    ).slots@[i]->0).data->0).username@ == uname);
                                    assert(old(self).username_taken(uname));
                                }
                            } else {
                                assert(self.slots@[i] == old(self).slots@[i]);
                                assert(self.slots@[j] == old(self).slots@[j]);
                            }
                        }
                    }
                }
            },
            _ => {
                let slot = &mut self.slots[tok];
                match slot {
                    Some(c) => {
                        c.error(ErrorKind::AuthorizationRequired);
                    },
                    None => {
                    },
                }
            },
        }
    }

    /// The transition table of the per-connection state machine, one message
    /// at a time.  In `Handshake` the message is consumed by the handshake
    /// handler; in `Pairing` the registry does not interpret it, and hands
    /// it back for the pairing collaborator to route; in a terminal state
    /// nothing happens.
    pub fn handle_message(&mut self, tok: usize, msg: Message) -> (delivered: Option<Message>)
        requires
            old(self).wf(),
            old(self).live(tok as int),
        ensures
            final(self).wf(),
            final(self).close_on_duplicate == old(self).close_on_duplicate,
            final(self).slots@.len() == old(self).slots@.len(),
            final(self).free@ == old(self).free@,
            forall|j: int|
                0 <= j < old(self).slots@.len() && j != tok as int ==> final(self).slots@[j]
                    == old(self).slots@[j],
            final(self).live(tok as int),
            old(self).usernames_unique() ==> final(self).usernames_unique(),
            ({
                let c = old(self).client_at(tok as int);
                let c2 = final(self).client_at(tok as int);
                &&& c2.token == c.token
                &&& bytes_view(c2.read_buf) == bytes_view(c.read_buf)
                &&& (c.data is Some ==> c2.data == c.data)
                &&& match c.state {
                    ClientState::Handshake => delivered is None && match msg@ {
                        MessageView::ClientHandshake { username, password } => if !old(
                            self,
                        ).username_taken(username) {
                            &&& c2.state == ClientState::Pairing
                            &&& c2.data is Some
                            &&& (c2.data->0).username@ == username
                            &&& (c2.data->0).password@ == password
                            &&& bytes_view(c2.write_buf) == bytes_view(c.write_buf) + spec_encode(
                                MessageView::ServerHandshake(HandshakeStatus::Okay),
                            )
                        } else {
                            &&& c2.state == (if old(self).close_on_duplicate {
                                ClientState::Error
                            } else {
                                ClientState::Handshake
                            })
                            &&& c2.data is None
                            &&& bytes_view(c2.write_buf) == bytes_view(c.write_buf) + spec_encode(
                                MessageView::ServerHandshake(HandshakeStatus::UserExists),
                            )
                        },
                        _ => {
                            &&& c2.state == ClientState::Error
                            &&& c2.data is None
                            &&& bytes_view(c2.write_buf) == bytes_view(c.write_buf) + spec_encode(
                                MessageView::Error(error_text(ErrorKind::AuthorizationRequired)),
                            )
                        },
                    },
                    ClientState::Pairing => delivered == Some(msg) && c2 == c,
                    ClientState::Error => delivered is None && c2 == c,
                    ClientState::Dead => delivered is None && c2 == c,
                }
            }),
    {
        let st = match &self.slots[tok] {
            Some(c) => c.state,
            None => ClientState::Dead,
        };
        match st {
            ClientState::Handshake => {
                self.handle_handshake_message(tok, msg);
                None
            },
            ClientState::Pairing => Some(msg),
            ClientState::Error => None,
            ClientState::Dead => None,
        }
    }

    /// Runs the decode loop for one connection: messages are decoded from
    /// the front of its read buffer and dispatched one by one, in arrival
    /// order, until the buffer holds no complete frame, a decode fault ends
    /// the connection with a final `Error`, or a handled message has left
    /// the connection in a terminal state.  The registry afterwards, and the
    /// messages handed back for the pairing collaborator to route, are
    /// exactly those of [`spec_drain`].
    #[verifier::rlimit(50)]
    #[verifier::spinoff_prover]
    pub fn process_messages(&mut self, tok: usize) -> (delivered: Vec<Message>)
        requires
            old(self).wf(),
        ensures
            final(self).wf(),
            final(self).close_on_duplicate == old(self).close_on_duplicate,
            final(self).slots@.len() == old(self).slots@.len(),
            final(self).free@ == old(self).free@,
            forall|j: int|
                0 <= j < old(self).slots@.len() && j != tok as int ==> final(self).slots@[j]
                    == old(self).slots@[j],
            old(self).usernames_unique() ==> final(self).usernames_unique(),
            !old(self).live(tok as int) ==> final(self).slots@ == old(self).slots@ && delivered@
                =~= Seq::<Message>::empty(),
            old(self).live(tok as int) ==> final(self).model() == spec_drain(
                old(self).model(),
                tok as int,
                old(self).close_on_duplicate,
            ).0 && views_of(delivered@) == spec_drain(
                old(self).model(),
                tok as int,
                old(self).close_on_duplicate,
            ).1,
            old(self).live(tok as int) ==> final(self).live(tok as int) && final(self).client_at(
                tok as int,
            ).token == old(self).client_at(tok as int).token,
    {
        let mut delivered: Vec<Message> = Vec::new();
        if tok >= self.slots.len() {
            return delivered;
        }
        if self.slots[tok].is_none() {
            return delivered;
        }
        let ghost m0 = old(self).model();
        let ghost pol = old(self).close_on_duplicate;
        proof {
            assert(views_of(delivered@) =~= Seq::<MessageView>::empty());
            assert(views_of(delivered@) + spec_drain(self.model(), tok as int, pol).1
                =~= spec_drain(self.model(), tok as int, pol).1);
        }
        loop
            invariant
                self.wf(),
                (tok as int) < self.slots@.len(),
                self.live(tok as int),
                self.close_on_duplicate == pol,
                self.slots@.len() == old(self).slots@.len(),
                self.free@ == old(self).free@,
                forall|j: int|
                    0 <= j < old(self).slots@.len() && j != tok as int ==> self.slots@[j] == old(
                        self,
                    ).slots@[j],
                old(self).usernames_unique() ==> self.usernames_unique(),
                self.client_at(tok as int).token == old(self).client_at(tok as int).token,
                spec_drain(m0, tok as int, pol).0 == spec_drain(self.model(), tok as int, pol).0,
                spec_drain(m0, tok as int, pol).1 == views_of(delivered@) + spec_drain(
                    self.model(),
                    tok as int,
                    pol,
                ).1,
            ensures
                self.wf(),
                self.live(tok as int),
                self.close_on_duplicate == pol,
                self.slots@.len() == old(self).slots@.len(),
                self.free@ == old(self).free@,
                forall|j: int|
                    0 <= j < old(self).slots@.len() && j != tok as int ==> self.slots@[j] == old(
                        self,
                    ).slots@[j],
                old(self).usernames_unique() ==> self.usernames_unique(),
                self.client_at(tok as int).token == old(self).client_at(tok as int).token,
                spec_drain(m0, tok as int, pol).0 == spec_drain(self.model(), tok as int, pol).0,
                spec_drain(m0, tok as int, pol).1 == views_of(delivered@) + spec_drain(
                    self.model(),
                    tok as int,
                    pol,
                ).1,
                spec_drain(self.model(), tok as int, pol) == (
                    self.model(),
                    Seq::<MessageView>::empty(),
                ),
            decreases bytes_view(self.client_at(tok as int).read_buf).len(),
        {
            let st = match &self.slots[tok] {
                Some(c) => c.state,
                None => ClientState::Dead,
            };
            match st {
                ClientState::Handshake => {
                },
                ClientState::Pairing => {
                },
                ClientState::Error => {
                    proof {
                        assert(spec_drain(self.model(), tok as int, pol) == (
                            self.model(),
                            Seq::<MessageView>::empty(),
                        ));
                    }
                    break ;
                },
                ClientState::Dead => {
                    proof {
                        assert(spec_drain(self.model(), tok as int, pol) == (
                            self.model(),
                            Seq::<MessageView>::empty(),
                        ));
                    }
                    break ;
                },
            }
            let ghost snap_pre = *self;
            let ghost model_pre = self.model();
            let ghost r_before = bytes_view(self.client_at(tok as int).read_buf);
            let ghost w_before = bytes_view(self.client_at(tok as int).write_buf);
            let ghost dold = delivered@;
            let res = {
                let slot = &mut self.slots[tok];
                match slot {
                    Some(c) => decode(&mut c.read_buf),
                    None => Ok(None),
                }
            };
            let ghost snap_mid = *self;
            match res {
                Ok(Some(m)) => {
                    match self.handle_message(tok, m) {
                        Some(d) => delivered.push(d),
                        None => {
                        },
                    }
                    proof {
                        let c = model_pre[tok as int]->0;
                        assert(c.read == r_before);
                        assert(c.write == w_before);
                        match sdec_message(r_before) {
                            SpecStep::Got { v, end } => {
                                assert(v == m@);
                                assert(1 <= end <= c.read.len());
                                let t = spec_transition(model_pre, c, v, pol);
                                let c2 = (ClientModel {
                                    read: c.read.skip(end),
                                    write: c.write + t.2,
                                    state: t.0,
                                    data: t.1,
                                });
                                let reg2 = model_pre.update(tok as int, Some(c2));
                                match m@ {
                                    MessageView::ClientHandshake { username, password } => {
                                        lemma_username_taken_model(&snap_mid, username);
                                        lemma_model_taken_same_data(
                                            snap_mid.model(),
                                            model_pre,
                                            username,
                                        );
                                    },
                                    _ => {
                                    },
                                }
                                let cpost = self.model()[tok as int]->0;
                                assert(cpost.read == c2.read);
                                match c.state {
                                    ClientState::Handshake => {
                                        assert(c.data is None);
                                        assert(cpost.state == c2.state);
                                        assert(cpost.data == c2.data);
                                        assert(cpost.write == c2.write);
                                    },
                                    ClientState::Pairing => {
                                        assert(cpost.write =~= c2.write);
                                        assert(cpost.state == c2.state);
                                        assert(cpost.data == c2.data);
                                    },
                                    ClientState::Error => {
                                        assert(false);
                                    },
                                    ClientState::Dead => {
                                        assert(false);
                                    },
                                }
                                assert(cpost == c2);
                                assert forall|j: int|
                                    0 <= j < self.model().len() implies self.model()[j]
                                    == reg2[j] by {
                                    if j != tok as int {
                                        assert(self.slots@[j] == snap_pre.slots@[j]);
                                    }
                                }
                                assert(self.model() =~= reg2);
                                assert(spec_drain(model_pre, tok as int, pol).0 == spec_drain(
                                    reg2,
                                    tok as int,
                                    pol,
                                ).0);
                                assert(spec_drain(model_pre, tok as int, pol).1 == (match t.3 {
                                    Some(mv) => seq![mv],
                                    None => Seq::<MessageView>::empty(),
                                }) + spec_drain(reg2, tok as int, pol).1);
                                match t.3 {
                                    Some(mv) => {
                                        assert(delivered@ == dold.push(m));
                                        assert(views_of(delivered@) =~= views_of(dold).push(m@));
                                        assert(views_of(dold).push(m@) + spec_drain(
                                            reg2,
                                            tok as int,
                                            pol,
                                        ).1 =~= views_of(dold) + (seq![m@] + spec_drain(
                                            reg2,
                                            tok as int,
                                            pol,
                                        ).1));
                                    },
                                    None => {
                                        assert(delivered@ == dold);
                                        assert(views_of(dold) + (Seq::<MessageView>::empty()
                                            + spec_drain(reg2, tok as int, pol).1) =~= views_of(
                                            dold,
                                        ) + spec_drain(reg2, tok as int, pol).1);
                                    },
                                }
                            },
                            SpecStep::Short => {
                                assert(false);
                            },
                            SpecStep::Fail { err, end } => {
                                assert(false);
                            },
                        }
                    }
                },
                Ok(None) => {
                    proof {
                        assert(sdec_message(
                            bytes_view(self.client_at(tok as int).read_buf),
                        ) is Short);
                        assert(spec_drain(self.model(), tok as int, pol) == (
                            self.model(),
                            Seq::<MessageView>::empty(),
                        ));
                    }
                    break ;
                },
                Err(e) => {
                    let slot = &mut self.slots[tok];
                    match slot {
                        Some(c) => {
                            c.error(ErrorKind::Decode(e));
                        },
                        None => {
                        },
                    }
                    proof {
                        let c = model_pre[tok as int]->0;
                        assert(c.read == r_before);
                        assert(c.write == w_before);
                        match sdec_message(r_before) {
                            SpecStep::Fail { err, end } => {
                                assert(err == e);
                                assert(0 < end <= c.read.len());
                                let c2 = (ClientModel {
                                    read: c.read.skip(end),
                                    write: c.write + spec_encode(
                                        MessageView::Error(error_text(ErrorKind::Decode(err))),
                                    ),
                                    state: ClientState::Error,
                                    data: c.data,
                                });
                                let reg2 = model_pre.update(tok as int, Some(c2));
                                let cpost = self.model()[tok as int]->0;
                                assert(cpost.read == c2.read);
                                assert(cpost.write == c2.write);
                                assert(cpost == c2);
                                assert forall|j: int|
                                    0 <= j < self.model().len() implies self.model()[j]
                                    == reg2[j] by {
                                    if j != tok as int {
                                        assert(self.slots@[j] == snap_pre.slots@[j]);
                                    }
                                }
                                assert(self.model() =~= reg2);
                                assert(spec_drain(model_pre, tok as int, pol) == (
                                    reg2,
                                    Seq::<MessageView>::empty(),
                                ));
                                assert(spec_drain(reg2, tok as int, pol) == (
                                    reg2,
                                    Seq::<MessageView>::empty(),
                                ));
                                assert(views_of(delivered@) + Seq::<MessageView>::empty()
                                    =~= views_of(delivered@));
                            },
                            SpecStep::Short => {
                                assert(false);
                            },
                            SpecStep::Got { v, end } => {
                                assert(false);
                            },
                        }
                    }
                    break ;
                },
            }
        }
        proof {
            assert(views_of(delivered@) + Seq::<MessageView>::empty() =~= views_of(delivered@));
        }
        delivered
    }

    /// Feeds one chunk read from the connection's socket; see
    /// [`Client::push_chunk`] for the buffer-overflow discipline.  A dead
    /// token is ignored.
    pub fn on_read_chunk(&mut self, tok: usize, chunk: &[u8])
        requires
            old(self).wf(),
        ensures
            final(self).wf(),
            final(self).close_on_duplicate == old(self).close_on_duplicate,
            final(self).slots@.len() == old(self).slots@.len(),
            final(self).free@ == old(self).free@,
            forall|j: int|
                0 <= j < old(self).slots@.len() && j != tok as int ==> final(self).slots@[j]
                    == old(self).slots@[j],
            old(self).usernames_unique() ==> final(self).usernames_unique(),
            !old(self).live(tok as int) ==> final(self).slots@ == old(self).slots@,
            old(self).live(tok as int) ==> final(self).live(tok as int) && ({
                let c = old(self).client_at(tok as int);
                let c2 = final(self).client_at(tok as int);
                &&& c2.token == c.token
                &&& c2.data == c.data
                &&& ((c.state == ClientState::Error || c.state == ClientState::Dead) ==> c2 == c)
                &&& ((c.state == ClientState::Handshake || c.state == ClientState::Pairing)
                    ==> if bytes_view(c.read_buf).len() + chunk@.len()
                    <= CONNECTION_READ_BUF_MAX_CAPACITY {
                    &&& c2.state == c.state
                    &&& bytes_view(c2.read_buf) == bytes_view(c.read_buf) + chunk@
                    &&& bytes_view(c2.write_buf) == bytes_view(c.write_buf)
                } else {
                    &&& c2.state == ClientState::Error
                    &&& bytes_view(c2.read_buf) == bytes_view(c.read_buf)
                    &&& bytes_view(c2.write_buf) == bytes_view(c.write_buf) + spec_encode(
                        MessageView::Error(error_text(ErrorKind::BufferOverflow)),
                    )
                })
            }),
    {
        if tok >= self.slots.len() {
            return ;
        }
        let slot = &mut self.slots[tok];
        match slot {
            Some(c) => {
                c.push_chunk(chunk);
            },
            None => {
            },
        }
    }

    /// The connection's socket read returned zero bytes: the peer closed,
    /// and the connection transitions straight to `Dead`.  A dead token is
    /// ignored.
    pub fn on_peer_closed(&mut self, tok: usize)
        requires
            old(self).wf(),
        ensures
            final(self).wf(),
            final(self).close_on_duplicate == old(self).close_on_duplicate,
            final(self).slots@.len() == old(self).slots@.len(),
            final(self).free@ == old(self).free@,
            forall|j: int|
                0 <= j < old(self).slots@.len() && j != tok as int ==> final(self).slots@[j]
                    == old(self).slots@[j],
            old(self).usernames_unique() ==> final(self).usernames_unique(),
            !old(self).live(tok as int) ==> final(self).slots@ == old(self).slots@,
            old(self).live(tok as int) ==> final(self).live(tok as int) && ({
                let c = old(self).client_at(tok as int);
                let c2 = final(self).client_at(tok as int);
                &&& c2.token == c.token
                &&& c2.data == c.data
                &&& c2.state == ClientState::Dead
                &&& bytes_view(c2.read_buf) == bytes_view(c.read_buf)
                &&& bytes_view(c2.write_buf) == bytes_view(c.write_buf)
            }),
    {
        if tok >= self.slots.len() {
            return ;
        }
        let slot = &mut self.slots[tok];
        match slot {
            Some(c) => {
                c.on_peer_closed();
            },
            None => {
            },
        }
    }

    /// The connection's bytes awaiting flush, front first; empty for a dead
    /// token.
    pub fn pending_write(&self, tok: usize) -> (r: Vec<u8>)
        ensures
            self.live(tok as int) ==> r@ == bytes_view(self.client_at(tok as int).write_buf),
            !self.live(tok as int) ==> r@ == Seq::<u8>::empty(),
    {
        if tok >= self.slots.len() {
            return Vec::new();
        }
        match &self.slots[tok] {
            Some(c) => c.pending_write(),
            None => Vec::new(),
        }
    }

    /// Front-trims the connection's write buffer by the number of bytes its
    /// socket actually accepted.  A dead token is ignored.
    pub fn did_write(&mut self, tok: usize, amt: usize)
        requires
            old(self).wf(),
        ensures
            final(self).wf(),
            final(self).close_on_duplicate == old(self).close_on_duplicate,
            final(self).slots@.len() == old(self).slots@.len(),
            final(self).free@ == old(self).free@,
            forall|j: int|
                0 <= j < old(self).slots@.len() && j != tok as int ==> final(self).slots@[j]
                    == old(self).slots@[j],
            old(self).usernames_unique() ==> final(self).usernames_unique(),
            !old(self).live(tok as int) ==> final(self).slots@ == old(self).slots@,
            old(self).live(tok as int) ==> final(self).live(tok as int) && ({
                let c = old(self).client_at(tok as int);
                let c2 = final(self).client_at(tok as int);
                &&& c2.token == c.token
                &&& c2.data == c.data
                &&& c2.state == c.state
                &&& bytes_view(c2.read_buf) == bytes_view(c.read_buf)
                &&& (amt <= bytes_view(c.write_buf).len() ==> bytes_view(c2.write_buf)
                    == bytes_view(c.write_buf).skip(amt as int))
                &&& (amt > bytes_view(c.write_buf).len() ==> bytes_view(c2.write_buf) == Seq::<
                    u8,
                >::empty())
            }),
    {
        if tok >= self.slots.len() {
            return ;
        }
        let slot = &mut self.slots[tok];
        match slot {
            Some(c) => {
                c.did_write(amt);
            },
            None => {
            },
        }
    }

    /// True exactly when the reactor must reap the connection: it is
    /// `Dead`, or in `Error` with its write buffer fully drained.  A dead
    /// token needs no reaping.
    pub fn should_reap(&self, tok: usize) -> (r: bool)
        ensures
            self.live(tok as int) ==> r == (self.client_at(tok as int).state == ClientState::Dead
                || (self.client_at(tok as int).state == ClientState::Error && bytes_view(
                self.client_at(tok as int).write_buf,
            ).len() == 0)),
            !self.live(tok as int) ==> r == false,
    {
        if tok >= self.slots.len() {
            return false;
        }
        match &self.slots[tok] {
            Some(c) => c.should_reap(),
            None => false,
        }
    }


    /// Reaps the connection if and only if it is due: `Dead`, or `Error`
    /// with its write buffer fully drained.  A connection in `Error` with
    /// unflushed bytes stays in the registry until they have been written.
    pub fn reap(&mut self, tok: usize) -> (reaped: bool)
        requires
            old(self).wf(),
        ensures
            final(self).wf(),
            final(self).close_on_duplicate == old(self).close_on_duplicate,
            final(self).slots@.len() == old(self).slots@.len(),
            old(self).usernames_unique() ==> final(self).usernames_unique(),
            !old(self).live(tok as int) ==> final(self).slots@ == old(self).slots@
                && final(self).free@ == old(self).free@ && !reaped,
            old(self).live(tok as int) ==> reaped == (old(self).client_at(tok as int).state
                == ClientState::Dead || (old(self).client_at(tok as int).state
                == ClientState::Error && bytes_view(
                old(self).client_at(tok as int).write_buf,
            ).len() == 0)),
            old(self).live(tok as int) && reaped ==> final(self).slots@
                == old(self).slots@.update(tok as int, None),
            old(self).live(tok as int) && !reaped ==> final(self).slots@ == old(self).slots@
                && final(self).free@ == old(self).free@,
    {
        if self.should_reap(tok) {
            self.remove(tok);
            true
        } else {
            false
        }
    }

}

} // verus!
