//! TCP relay: encrypted stream framing and the local- and server-role
//! session logic.

pub mod local;
pub mod server;
pub mod stream;
