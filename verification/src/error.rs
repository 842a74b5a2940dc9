//! The error taxonomy of the relay core.

use vstd::prelude::*;

verus! {

/// Every failure the relay core can report.
///
/// The variants group into protocol faults (a malformed or unsupported
/// SOCKS5 exchange), crypto faults, resolution faults, transport faults
/// (handed in by the I/O layer so the core can decide on a reply), and
/// configuration faults that are fatal at startup.
#[derive(Clone, Copy, Debug, PartialEq, Eq, Structural)]
pub enum Error {
    /// A SOCKS5 header carried a version byte other than 5.
    VersionMismatch,
    /// A header was present but did not follow the wire grammar.
    MalformedHeader,
    /// More bytes are needed before the item can be decoded.
    Incomplete,
    /// The client offered no authentication method we accept.
    AuthUnsupported,
    /// The request carried a command we do not serve.
    UnsupportedCommand,
    /// The address type byte was none of IPv4, domain, IPv6.
    AddressTypeNotSupported,
    /// The cipher name does not belong to a supported method.
    UnsupportedMethod,
    /// Key material of the wrong size for the chosen method.
    InvalidKey,
    /// The underlying cipher reported a failure.
    CipherFailure,
    /// The stream ended before the full initialization vector arrived.
    UnexpectedEof,
    /// Name resolution produced no answer.
    NoAnswer,
    /// The resolved target address is on the forbidden list.
    Forbidden,
    /// The peer refused the connection.
    ConnectionRefused,
    /// The peer reset the connection.
    ConnectionReset,
    /// The connection attempt was aborted.
    ConnectionAborted,
    /// The peer side of a pipe or stream went away.
    BrokenPipe,
    /// An I/O deadline elapsed.
    Timeout,
    /// Any other transport-level read, write or connect failure.
    TransportFailure,
    /// A datagram would exceed the maximum UDP payload size after framing.
    PayloadTooLarge,
    /// No server endpoint was configured.
    MissingServerConfig,
    /// The local role was started without a listen address.
    MissingLocalConfig,
}

impl Error {
    /// Whether the error is an expected end-of-connection cause, logged
    /// quietly, rather than a genuine fault.
    pub fn is_expected_eof(&self) -> (r: bool)
        ensures
            r <==> (self is BrokenPipe || self is UnexpectedEof),
    {
        match self {
            Error::BrokenPipe => true,
            Error::UnexpectedEof => true,
            _ => false,
        }
    }
}

} // verus!
