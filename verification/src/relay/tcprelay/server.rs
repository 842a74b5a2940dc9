//! Server-role TCP relay: the per-connection decision logic.
//!
//! The I/O layer decrypts inbound bytes through the reader, hands the
//! plaintext prefix here to learn the target, resolves names, and lets
//! [`TcpRelayServer::resolve_remote`] apply the forbidden-IP rule before
//! any outbound connect.

use vstd::prelude::*;
use crate::config::Config;
use crate::error::Error;
use crate::relay::socks5::{spec_parse_address, Address, AddressView, IpAddr, SocketAddr};

verus! {

/// The concrete address a target denotes: a literal socket address passes
/// through; a domain name takes the first resolver answer.
pub open spec fn spec_resolved(a: AddressView, answers: Seq<SocketAddr>) -> Option<SocketAddr> {
    match a {
        AddressView::Ip(sa) => Some(sa),
        AddressView::Domain(_, _) => if answers.len() > 0 {
            Some(answers[0])
        } else {
            None
        },
    }
}

/// Resolution with the forbidden-IP rule applied: no answer fails with
/// `NoAnswer`; an answer on the forbidden list fails with `Forbidden`.
pub open spec fn spec_resolve_remote(
    a: AddressView,
    answers: Seq<SocketAddr>,
    forbidden: Seq<IpAddr>,
) -> Result<SocketAddr, Error> {
    match spec_resolved(a, answers) {
        None => Err(Error::NoAnswer),
        Some(sa) => if forbidden.contains(sa.ip) {
            Err(Error::Forbidden)
        } else {
            Ok(sa)
        },
    }
}

/// Forbidden-IP enforcement: whenever resolution succeeds, the address it
/// hands back — the only address an outbound connect is ever issued to —
/// is not on the forbidden list.
pub proof fn lemma_forbidden_ip_enforced(
    a: AddressView,
    answers: Seq<SocketAddr>,
    forbidden: Seq<IpAddr>,
    sa: SocketAddr,
)
    requires
        spec_resolve_remote(a, answers, forbidden) == Ok::<SocketAddr, Error>(sa),
    ensures
        !forbidden.contains(sa.ip),
{
}

/// What the server makes of the decrypted prefix of a connection.
#[derive(Debug)]
pub enum TargetStep {
    /// Not enough plaintext yet to hold the whole address.
    NeedMoreData,
    /// The target address, and how many plaintext bytes it occupied;
    /// everything after it is payload for the target.
    Target(Address, usize),
}

/// The server-role TCP relay.
#[derive(Debug)]
pub struct TcpRelayServer {
    pub config: Config,
}

impl TcpRelayServer {
    /// The server role needs at least one configured server.
    pub fn new(c: Config) -> (r: Result<TcpRelayServer, Error>)
        ensures
            match r {
                Ok(rs) => c.server@.len() > 0 && rs.config == c,
                Err(e) => c.server@.len() == 0 && e == Error::MissingServerConfig,
            },
    {
        if c.server.len() == 0 {
            Err(Error::MissingServerConfig)
        } else {
            Ok(TcpRelayServer { config: c })
        }
    }

    /// Reads the target address off the decrypted prefix of the
    /// connection.  A truncated address asks for more bytes; a malformed
    /// one is a protocol fault and drops the connection.
    pub fn read_target(plain: &[u8]) -> (r: Result<TargetStep, Error>)
        ensures
            match r {
                Ok(step) => match step {
                    TargetStep::NeedMoreData => spec_parse_address(plain@) == Err::<
                        (AddressView, int),
                        Error,
                    >(Error::Incomplete),
                    TargetStep::Target(a, n) => spec_parse_address(plain@) == Ok::<
                        (AddressView, int),
                        Error,
                    >((a@, n as int)),
                },
                Err(e) => e != Error::Incomplete && spec_parse_address(plain@) == Err::<
                    (AddressView, int),
                    Error,
                >(e),
            },
    {
        match Address::read_from(plain) {
            Ok((a, n)) => Ok(TargetStep::Target(a, n)),
            Err(Error::Incomplete) => Ok(TargetStep::NeedMoreData),
            Err(e) => Err(e),
        }
    }

    /// The concrete target for an address, given the resolver's answers
    /// for a domain name.
    pub fn resolve_address(addr: &Address, answers: &Vec<SocketAddr>) -> (r: Result<
        SocketAddr,
        Error,
    >)
        ensures
            match spec_resolved(addr@, answers@) {
                Some(sa) => r == Ok::<SocketAddr, Error>(sa),
                None => r == Err::<SocketAddr, Error>(Error::NoAnswer),
            },
    {
        match addr {
            Address::SocketAddress(sa) => Ok(*sa),
            Address::DomainNameAddress(_, _) => {
                if answers.len() > 0 {
                    Ok(answers[0])
                } else {
                    Err(Error::NoAnswer)
                }
            },
        }
    }

    /// Resolution plus the forbidden-IP check, which runs after DNS
    /// resolution and before any outbound connect.
    pub fn resolve_remote(
        addr: &Address,
        answers: &Vec<SocketAddr>,
        forbidden: &Vec<IpAddr>,
    ) -> (r: Result<SocketAddr, Error>)
        ensures
            r == spec_resolve_remote(addr@, answers@, forbidden@),
    {
        match Self::resolve_address(addr, answers) {
            Err(e) => Err(e),
            Ok(sa) => {
                let mut i: usize = 0;
                while i < forbidden.len()
                    invariant
                        i <= forbidden@.len(),
                        spec_resolved(addr@, answers@) == Some(sa),
                        forall|j: int| 0 <= j < i ==> forbidden@[j] != sa.ip,
                    decreases forbidden@.len() - i,
                {
                    if forbidden[i] == sa.ip {
                        assert(forbidden@[i as int] == sa.ip);
                        return Err(Error::Forbidden);
                    }
                    i = i + 1;
                }
                proof {
                    assert(!forbidden@.contains(sa.ip));
                }
                Ok(sa)
            },
        }
    }
}

} // verus!
