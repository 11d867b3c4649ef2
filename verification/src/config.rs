//! Fixed sizing parameters of the connection engine.
use vstd::prelude::*;

verus! {

/// Greatest number of simultaneous connections the registry will hold.
pub const CONNECTIONS_CAPACITY: usize = 8192;

/// Initial capacity reserved for a connection's read buffer.
pub const CONNECTION_READ_BUF_CAPACITY: usize = 4096;

/// Hard ceiling on a connection's buffered unparsed input; exceeding it is a
/// fatal buffer-overflow condition for that connection alone.
pub const CONNECTION_READ_BUF_MAX_CAPACITY: usize = 1048576;

/// Size of the scratch chunk a single socket read may deliver.
pub const CONNECTION_READ_CHUNK_SIZE: usize = 4096;

/// Initial capacity reserved for a connection's write buffer.
pub const CONNECTION_WRITE_BUF_CAPACITY: usize = 4096;

/// Capacity of the readiness-event batch the reactor asks the OS for.
pub const EVENTS_CAPACITY: usize = 1024;

} // verus!
