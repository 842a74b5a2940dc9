//! Local-role TCP relay: the per-client decision logic.
//!
//! The I/O layer accepts sockets, feeds bytes in and carries actions out;
//! every protocol decision — handshake replies, command handling, connect
//! error mapping, the first encrypted payload — is made here.

use vstd::prelude::*;
use crate::config::Config;
use crate::error::Error;
use crate::relay::socks5::{
    addr_view_wf, spec_addr_bytes, spec_hs_resp_bytes, spec_parse_hs_req, Address, AddressView,
    Command, HandshakeRequest, Reply, SocketAddr, TcpRequestHeader, TcpResponseHeader,
    SOCKS5_AUTH_METHOD_NONE, SOCKS5_AUTH_METHOD_NOT_ACCEPTABLE,
};

verus! {

/// What the local relay does with a parsed request.
#[derive(Debug)]
pub enum LocalDecision {
    /// CONNECT: pick a backend, connect, relay.
    Connect(Address),
    /// Reply with this code and close the client socket.
    ReplyAndClose(Reply),
    /// UDP ASSOCIATE with UDP enabled: reply Succeeded with the UDP relay's
    /// bound address and keep the control socket open.
    UdpAssociate,
}

/// The reply owed to the client when connecting to the backend fails:
/// refused, reset or aborted means the host is unreachable; anything else
/// means the network is.
pub open spec fn spec_connect_error_reply(e: Error) -> Reply {
    match e {
        Error::ConnectionRefused => Reply::HostUnreachable,
        Error::ConnectionReset => Reply::HostUnreachable,
        Error::ConnectionAborted => Reply::HostUnreachable,
        _ => Reply::NetworkUnreachable,
    }
}

/// The local-role TCP relay.
#[derive(Debug)]
pub struct TcpRelayLocal {
    pub config: Config,
}

impl TcpRelayLocal {
    /// A local relay needs at least one server and a local listen address;
    /// a configuration without them is rejected at startup.
    pub fn new(c: Config) -> (r: Result<TcpRelayLocal, Error>)
        ensures
            match r {
                Ok(rl) => c.server@.len() > 0 && c.local is Some && rl.config == c,
                Err(e) => {
                    &&& (c.server@.len() == 0 || c.local is None)
                    &&& e == if c.server@.len() == 0 {
                        Error::MissingServerConfig
                    } else {
                        Error::MissingLocalConfig
                    }
                },
            },
    {
        if c.server.len() == 0 {
            Err(Error::MissingServerConfig)
        } else if c.local.is_none() {
            Err(Error::MissingLocalConfig)
        } else {
            Ok(TcpRelayLocal { config: c })
        }
    }

    /// SOCKS5 handshake: parses the client's offer and chooses the reply.
    ///
    /// Returns the reply bytes, the number of request bytes consumed, and
    /// whether the session may continue: it may exactly when the client
    /// offered "no authentication"; otherwise the reply announces that no
    /// method is acceptable and the session ends.
    pub fn do_handshake(buf: &[u8]) -> (r: Result<(Vec<u8>, usize, bool), Error>)
        ensures
            match r {
                Ok(p) => match spec_parse_hs_req(buf@) {
                    Ok(parsed) => {
                        &&& p.1 as int == parsed.1
                        &&& p.2 == parsed.0.contains(SOCKS5_AUTH_METHOD_NONE)
                        &&& p.0@ == spec_hs_resp_bytes(
                            if p.2 {
                                SOCKS5_AUTH_METHOD_NONE
                            } else {
                                SOCKS5_AUTH_METHOD_NOT_ACCEPTABLE
                            },
                        )
                    },
                    Err(_) => false,
                },
                Err(e) => spec_parse_hs_req(buf@) == Err::<(Seq<u8>, int), Error>(e),
            },
    {
        match HandshakeRequest::read_from(buf) {
            Err(e) => Err(e),
            Ok((req, n)) => {
                let ok = req.contains_no_auth();
                let chosen = if ok {
                    SOCKS5_AUTH_METHOD_NONE
                } else {
                    SOCKS5_AUTH_METHOD_NOT_ACCEPTABLE
                };
                let mut reply: Vec<u8> = Vec::new();
                crate::relay::socks5::HandshakeResponse::new(chosen).write_to(&mut reply);
                Ok((reply, n, ok))
            },
        }
    }

    /// Decides what a parsed request asks for: CONNECT proceeds, BIND is
    /// refused, UDP ASSOCIATE depends on whether UDP is enabled.
    pub fn decide_request(header: TcpRequestHeader, enable_udp: bool) -> (r: LocalDecision)
        ensures
            header.command is TcpConnect ==> (r matches LocalDecision::Connect(a) && a@
                == header.address@),
            header.command is TcpBind ==> r == LocalDecision::ReplyAndClose(
                Reply::CommandNotSupported,
            ),
            header.command is UdpAssociate && enable_udp ==> r is UdpAssociate,
            header.command is UdpAssociate && !enable_udp ==> r == LocalDecision::ReplyAndClose(
                Reply::CommandNotSupported,
            ),
    {
        match header.command {
            Command::TcpConnect => LocalDecision::Connect(header.address),
            Command::TcpBind => LocalDecision::ReplyAndClose(Reply::CommandNotSupported),
            Command::UdpAssociate => {
                if enable_udp {
                    LocalDecision::UdpAssociate
                } else {
                    LocalDecision::ReplyAndClose(Reply::CommandNotSupported)
                }
            },
        }
    }

    /// Maps a backend connect failure to the SOCKS5 reply owed the client.
    pub fn map_connect_error(e: Error) -> (r: Reply)
        ensures
            r == spec_connect_error_reply(e),
    {
        match e {
            Error::ConnectionRefused => Reply::HostUnreachable,
            Error::ConnectionReset => Reply::HostUnreachable,
            Error::ConnectionAborted => Reply::HostUnreachable,
            _ => Reply::NetworkUnreachable,
        }
    }

    /// The Succeeded reply sent once the backend connection stands; it
    /// carries our own socket address, whose value the client ignores.
    pub fn connect_success_reply(local: SocketAddr) -> (h: TcpResponseHeader)
        ensures
            h.reply == Reply::Succeeded,
            h.address@ == AddressView::Ip(local),
    {
        TcpResponseHeader::new(Reply::Succeeded, Address::SocketAddress(local))
    }

    /// The Succeeded reply for UDP ASSOCIATE, carrying the UDP relay's
    /// bound address.
    pub fn udp_associate_reply(bound: SocketAddr) -> (h: TcpResponseHeader)
        ensures
            h.reply == Reply::Succeeded,
            h.address@ == AddressView::Ip(bound),
    {
        TcpResponseHeader::new(Reply::Succeeded, Address::SocketAddress(bound))
    }

    /// The first plaintext handed to the encrypt writer: the destination
    /// address, so it travels encrypted as the first payload bytes.
    pub fn initial_payload(addr: &Address) -> (b: Vec<u8>)
        requires
            addr_view_wf(addr@),
        ensures
            b@ == spec_addr_bytes(addr@),
    {
        let mut b: Vec<u8> = Vec::new();
        addr.write_to(&mut b);
        proof {
            assert(b@ =~= spec_addr_bytes(addr@));
        }
        b
    }
}

/// Replaces the port of a resolved backend address with the configured one.
pub fn server_addr_with_port(resolved: SocketAddr, port: u16) -> (r: SocketAddr)
    ensures
        r.ip == resolved.ip,
        r.port == port,
{
    SocketAddr { ip: resolved.ip, port }
}

/// The first match for a host in a cache list.
pub open spec fn spec_cache_lookup(
    entries: Seq<(Vec<u8>, SocketAddr)>,
    host: Seq<u8>,
) -> Option<SocketAddr>
    decreases entries.len(),
{
    if entries.len() == 0 {
        None
    } else if entries[0].0@ == host {
        Some(entries[0].1)
    } else {
        spec_cache_lookup(entries.drop_first(), host)
    }
}

/// The local role's small DNS cache: backend host names to the address
/// they resolved to.  Entries never expire.
pub struct DnsCache {
    pub entries: Vec<(Vec<u8>, SocketAddr)>,
}

fn bytes_eq(a: &[u8], b: &[u8]) -> (r: bool)
    ensures
        r <==> a@ == b@,
{
    if a.len() != b.len() {
        return false;
    }
    let mut i: usize = 0;
    while i < a.len()
        invariant
            i <= a@.len(),
            a@.len() == b@.len(),
            forall|j: int| 0 <= j < i ==> a@[j] == b@[j],
        decreases a@.len() - i,
    {
        if a[i] != b[i] {
            return false;
        }
        i = i + 1;
    }
    proof {
        assert(a@ =~= b@);
    }
    true
}

impl DnsCache {
    pub fn new() -> (c: DnsCache)
        ensures
            c.entries@.len() == 0,
    {
        DnsCache { entries: Vec::new() }
    }

    /// The cached address for a host, if any.
    pub fn get(&self, host: &[u8]) -> (r: Option<SocketAddr>)
        ensures
            r == spec_cache_lookup(self.entries@, host@),
    {
        let mut i: usize = 0;
        proof {
            assert(self.entries@.skip(0) =~= self.entries@);
        }
        while i < self.entries.len()
            invariant
                i <= self.entries@.len(),
                spec_cache_lookup(self.entries@, host@) == spec_cache_lookup(
                    self.entries@.skip(i as int),
                    host@,
                ),
            decreases self.entries@.len() - i,
        {
            proof {
                assert(self.entries@.skip(i as int)[0] == self.entries@[i as int]);
                assert(self.entries@.skip(i as int).drop_first() =~= self.entries@.skip(i + 1));
            }
            if bytes_eq(self.entries[i].0.as_slice(), host) {
                return Some(self.entries[i].1);
            }
            i = i + 1;
        }
        proof {
            assert(self.entries@.skip(self.entries@.len() as int).len() == 0);
        }
        None
    }

    /// Records a resolution.
    pub fn insert(&mut self, host: Vec<u8>, addr: SocketAddr)
        ensures
            final(self).entries@ == old(self).entries@.push((host, addr)),
    {
        self.entries.push((host, addr));
    }
}

} // verus!
