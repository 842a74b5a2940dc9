//! UDP relay: per-datagram encryption and the server-role datagram logic.

use vstd::prelude::*;

pub mod crypto_io;
pub mod server;

verus! {

/// Receive buffer sizing: the largest UDP payload the relay handles.
pub const MAXIMUM_UDP_PAYLOAD_SIZE: usize = 65536;

/// The per-datagram deadline, in seconds, when none is configured.
pub const DEFAULT_UDP_TIMEOUT_SECS: u64 = 5;

} // verus!
