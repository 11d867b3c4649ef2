//! Connection engine for a length/opcode-framed binary protocol between a
//! central hub and many simultaneous clients: the wire codec, the
//! per-connection buffers, the connection registry, and the per-connection
//! state machine that drives handshake, pairing and termination.
use vstd::prelude::*;

pub mod bytebuf;
pub mod clients;
pub mod codec;
pub mod config;
pub mod error;
pub mod graphics;
pub mod protocol;
pub mod server;

verus! {

} // verus!
