//! A verified core for a SOCKS5 / shadowsocks style encrypted proxy.
//!
//! The library holds the protocol logic of the proxy: the cipher factory and
//! stream transforms, the SOCKS5 codec, round-robin load balancing,
//! forbidden-IP filtering, the encrypted stream framing, and the per-session
//! decision machinery of the TCP and UDP relays.  Sockets, name resolution
//! and process plumbing live outside the library and hand it plain values.

pub mod config;
pub mod crypto;
pub mod error;
pub mod relay;
