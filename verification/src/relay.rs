//! Relay engine: protocol codec, load balancing, and the session machinery
//! of the TCP and UDP relays.

pub mod loadbalancing;
pub mod socks5;
pub mod tcprelay;
pub mod tunnel;
pub mod udprelay;
