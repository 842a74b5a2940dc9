//! SOCKS5 wire codec: addresses, handshake and request/response headers.
//!
//! All items decode from and encode to plain byte buffers; the I/O layer
//! accumulates bytes and retries on [`Error::Incomplete`].

use vstd::prelude::*;
use crate::error::Error;

verus! {

/// SOCKS5 protocol version byte.
pub const SOCKS5_VERSION: u8 = 5;

/// "No authentication" method identifier.
pub const SOCKS5_AUTH_METHOD_NONE: u8 = 0;

/// "No acceptable methods" reply identifier.
pub const SOCKS5_AUTH_METHOD_NOT_ACCEPTABLE: u8 = 255;

// ---------------------------------------------------------------------------
// Big-endian byte strings
// ---------------------------------------------------------------------------

/// `256^n`.
pub open spec fn pow256(n: nat) -> nat
    decreases n,
{
    if n == 0 {
        1
    } else {
        256 * pow256((n - 1) as nat)
    }
}

/// The `n`-byte big-endian encoding of `x mod 256^n`.
pub open spec fn be_encode(x: nat, n: nat) -> Seq<u8>
    decreases n,
{
    if n == 0 {
        Seq::empty()
    } else {
        be_encode(x / 256, (n - 1) as nat) + seq![(x % 256) as u8]
    }
}

/// The number a big-endian byte string denotes.
pub open spec fn be_decode(s: Seq<u8>) -> nat
    decreases s.len(),
{
    if s.len() == 0 {
        0
    } else {
        be_decode(s.drop_last()) * 256 + s.last() as nat
    }
}

pub proof fn lemma_be_encode_len(x: nat, n: nat)
    ensures
        be_encode(x, n).len() == n,
    decreases n,
{
    if n > 0 {
        lemma_be_encode_len(x / 256, (n - 1) as nat);
    }
}

pub proof fn lemma_be_decode_bound(s: Seq<u8>)
    ensures
        be_decode(s) < pow256(s.len()),
    decreases s.len(),
{
    if s.len() > 0 {
        lemma_be_decode_bound(s.drop_last());
    }
}

/// Decoding inverts encoding for numbers that fit in `n` bytes.
pub proof fn lemma_be_round_trip(x: nat, n: nat)
    requires
        x < pow256(n),
    ensures
        be_decode(be_encode(x, n)) == x,
    decreases n,
{
    if n > 0 {
        let head = be_encode(x / 256, (n - 1) as nat);
        lemma_be_encode_len(x / 256, (n - 1) as nat);
        assert((head + seq![(x % 256) as u8]).drop_last() =~= head);
        assert(x / 256 < pow256((n - 1) as nat)) by {
            if x / 256 >= pow256((n - 1) as nat) {
                assert(x >= 256 * pow256((n - 1) as nat)) by (nonlinear_arith)
                    requires
                        x / 256 >= pow256((n - 1) as nat),
                ;
            }
        }
        lemma_be_round_trip(x / 256, (n - 1) as nat);
    }
}

// ---------------------------------------------------------------------------
// Addresses
// ---------------------------------------------------------------------------

/// An IP address, IPv4 or IPv6, as the value of its big-endian byte string.
#[derive(Clone, Copy, Debug, PartialEq, Eq, Hash, Structural)]
pub enum IpAddr {
    V4(u32),
    V6(u128),
}

/// A socket address: an IP address together with a port.
#[derive(Clone, Copy, Debug, PartialEq, Eq, Hash, Structural)]
pub struct SocketAddr {
    pub ip: IpAddr,
    pub port: u16,
}

/// A SOCKS5 address: a literal socket address or a domain name with a port.
#[derive(Clone, Debug, PartialEq, Eq)]
pub enum Address {
    /// ATYP 1 (IPv4) or ATYP 4 (IPv6).
    SocketAddress(SocketAddr),
    /// ATYP 3: a length-prefixed domain name, then a port.
    DomainNameAddress(Vec<u8>, u16),
}

/// The mathematical value of an [`Address`].
pub enum AddressView {
    Ip(SocketAddr),
    Domain(Seq<u8>, u16),
}

impl View for Address {
    type V = AddressView;

    open spec fn view(&self) -> AddressView {
        match self {
            Address::SocketAddress(sa) => AddressView::Ip(*sa),
            Address::DomainNameAddress(d, p) => AddressView::Domain(d@, *p),
        }
    }
}

/// A domain name must fit its one-byte length prefix.
pub open spec fn addr_view_wf(a: AddressView) -> bool {
    match a {
        AddressView::Ip(_) => true,
        AddressView::Domain(d, _) => d.len() <= 255,
    }
}

/// The wire encoding of an address.
pub open spec fn spec_addr_bytes(a: AddressView) -> Seq<u8> {
    match a {
        AddressView::Ip(sa) => match sa.ip {
            IpAddr::V4(x) => seq![1u8] + be_encode(x as nat, 4) + be_encode(sa.port as nat, 2),
            IpAddr::V6(x) => seq![4u8] + be_encode(x as nat, 16) + be_encode(sa.port as nat, 2),
        },
        AddressView::Domain(d, p) => seq![3u8, d.len() as u8] + d + be_encode(p as nat, 2),
    }
}

/// The parser for the wire encoding, as a mathematical function.
///
/// On success it yields the address and the number of bytes consumed.
pub open spec fn spec_parse_address(s: Seq<u8>) -> Result<(AddressView, int), Error> {
    if s.len() < 1 {
        Err(Error::Incomplete)
    } else if s[0] == 1 {
        if s.len() < 7 {
            Err(Error::Incomplete)
        } else {
            Ok(
                (
                    AddressView::Ip(
                        SocketAddr {
                            ip: IpAddr::V4(be_decode(s.subrange(1, 5)) as u32),
                            port: be_decode(s.subrange(5, 7)) as u16,
                        },
                    ),
                    7,
                ),
            )
        }
    } else if s[0] == 4 {
        if s.len() < 19 {
            Err(Error::Incomplete)
        } else {
            Ok(
                (
                    AddressView::Ip(
                        SocketAddr {
                            ip: IpAddr::V6(be_decode(s.subrange(1, 17)) as u128),
                            port: be_decode(s.subrange(17, 19)) as u16,
                        },
                    ),
                    19,
                ),
            )
        }
    } else if s[0] == 3 {
        if s.len() < 2 {
            Err(Error::Incomplete)
        } else {
            let dl = s[1] as int;
            if s.len() < 4 + dl {
                Err(Error::Incomplete)
            } else {
                Ok(
                    (
                        AddressView::Domain(
                            s.subrange(2, 2 + dl),
                            be_decode(s.subrange(2 + dl, 4 + dl)) as u16,
                        ),
                        4 + dl,
                    ),
                )
            }
        }
    } else {
        Err(Error::AddressTypeNotSupported)
    }
}

/// Address codec round trip: parsing an encoded address yields the address
/// back, whatever bytes follow it on the wire.
pub proof fn lemma_address_round_trip(a: AddressView, rest: Seq<u8>)
    requires
        addr_view_wf(a),
    ensures
        spec_parse_address(spec_addr_bytes(a) + rest) == Ok::<(AddressView, int), Error>(
            (a, spec_addr_bytes(a).len() as int),
        ),
{
    let s = spec_addr_bytes(a) + rest;
    match a {
        AddressView::Ip(sa) => {
            match sa.ip {
                IpAddr::V4(x) => {
                    lemma_be_encode_len(x as nat, 4);
                    lemma_be_encode_len(sa.port as nat, 2);
                    assert(s.subrange(1, 5) =~= be_encode(x as nat, 4));
                    assert(s.subrange(5, 7) =~= be_encode(sa.port as nat, 2));
                    lemma_pow256_u32(x);
                    lemma_pow256_u16(sa.port);
                    lemma_be_round_trip(x as nat, 4);
                    lemma_be_round_trip(sa.port as nat, 2);
                },
                IpAddr::V6(x) => {
                    lemma_be_encode_len(x as nat, 16);
                    lemma_be_encode_len(sa.port as nat, 2);
                    assert(s.subrange(1, 17) =~= be_encode(x as nat, 16));
                    assert(s.subrange(17, 19) =~= be_encode(sa.port as nat, 2));
                    lemma_pow256_u128(x);
                    lemma_pow256_u16(sa.port);
                    lemma_be_round_trip(x as nat, 16);
                    lemma_be_round_trip(sa.port as nat, 2);
                },
            }
        },
        AddressView::Domain(d, p) => {
            let dl = d.len() as int;
            lemma_be_encode_len(p as nat, 2);
            assert(s[0] == 3);
            assert(s[1] == d.len() as u8);
            assert(s[1] as int == dl);
            assert(s.subrange(2, 2 + dl) =~= d);
            assert(s.subrange(2 + dl, 4 + dl) =~= be_encode(p as nat, 2));
            lemma_pow256_u16(p);
            lemma_be_round_trip(p as nat, 2);
        },
    }
}

pub proof fn lemma_pow256_mono(m: nat, n: nat)
    requires
        m <= n,
    ensures
        pow256(m) <= pow256(n),
    decreases n,
{
    if m < n {
        lemma_pow256_mono(m, (n - 1) as nat);
    }
}

pub proof fn lemma_pow256_u16(x: u16)
    ensures
        (x as nat) < pow256(2),
{
    assert(pow256(2) == 0x10000) by {
        reveal_with_fuel(pow256, 3);
    }
}

pub proof fn lemma_pow256_u32(x: u32)
    ensures
        (x as nat) < pow256(4),
{
    assert(pow256(4) == 0x100000000) by {
        reveal_with_fuel(pow256, 5);
    }
}

pub proof fn lemma_pow256_u128(x: u128)
    ensures
        (x as nat) < pow256(16),
{
    assert(pow256(16) == 0x100000000000000000000000000000000) by {
        reveal_with_fuel(pow256, 17);
    }
}

// ---------------------------------------------------------------------------
// Executable big-endian helpers
// ---------------------------------------------------------------------------

/// Reads the big-endian number in `buf[start..end]`.
fn be_decode_exec(buf: &[u8], start: usize, end: usize) -> (x: u128)
    requires
        start <= end <= buf@.len(),
        end - start <= 16,
    ensures
        x as nat == be_decode(buf@.subrange(start as int, end as int)),
{
    proof {
        assert(pow256(16) == 0x100000000000000000000000000000000) by {
            reveal_with_fuel(pow256, 17);
        }
    }
    let mut acc: u128 = 0;
    let mut i: usize = start;
    while i < end
        invariant
            start <= i <= end <= buf@.len(),
            end - start <= 16,
            acc as nat == be_decode(buf@.subrange(start as int, i as int)),
            pow256(16) == 0x100000000000000000000000000000000,
        decreases end - i,
    {
        proof {
            lemma_be_decode_bound(buf@.subrange(start as int, i as int));
            lemma_pow256_mono((i - start) as nat, 15);
            assert(pow256(15) * 256 == pow256(16)) by {
                reveal_with_fuel(pow256, 17);
            }
            let p_done = pow256((i - start) as nat);
            let p15 = pow256(15);
            let p16 = pow256(16);
            let a = acc as nat;
            assert(a * 256 + 255 < p16) by (nonlinear_arith)
                requires
                    a < p_done,
                    p_done <= p15,
                    p15 * 256 == p16,
            ;
            assert(buf@.subrange(start as int, i + 1).drop_last() =~= buf@.subrange(
                start as int,
                i as int,
            ));
        }
        acc = acc * 256 + buf[i] as u128;
        i = i + 1;
    }
    acc
}

/// Appends the `n`-byte big-endian encoding of `x` to `out`.
fn be_encode_exec(x: u128, n: usize, out: &mut Vec<u8>)
    requires
        n <= 16,
    ensures
        final(out)@ == old(out)@ + be_encode(x as nat, n as nat),
    decreases n,
{
    if n == 0 {
        proof {
            assert(final(out)@ =~= old(out)@ + be_encode(x as nat, 0));
        }
    } else {
        be_encode_exec(x / 256, n - 1, out);
        out.push((x % 256) as u8);
        proof {
            assert(final(out)@ =~= old(out)@ + be_encode(x as nat, n as nat));
        }
    }
}

// ---------------------------------------------------------------------------
// Executable address codec
// ---------------------------------------------------------------------------

impl Address {
    /// Decodes an address from the front of `buf`, returning it with the
    /// number of bytes consumed, exactly as [`spec_parse_address`] says.
    pub fn read_from(buf: &[u8]) -> (r: Result<(Address, usize), Error>)
        ensures
            match r {
                Ok(p) => spec_parse_address(buf@) == Ok::<(AddressView, int), Error>(
                    (p.0@, p.1 as int),
                ),
                Err(e) => spec_parse_address(buf@) == Err::<(AddressView, int), Error>(e),
            },
    {
        if buf.len() < 1 {
            return Err(Error::Incomplete);
        }
        let atyp = buf[0];
        if atyp == 1 {
            if buf.len() < 7 {
                return Err(Error::Incomplete);
            }
            proof {
                lemma_be_decode_bound(buf@.subrange(1, 5));
                lemma_be_decode_bound(buf@.subrange(5, 7));
                assert(pow256(4) == 0x100000000) by {
                    reveal_with_fuel(pow256, 5);
                }
                assert(pow256(2) == 0x10000) by {
                    reveal_with_fuel(pow256, 3);
                }
            }
            let ip = be_decode_exec(buf, 1, 5) as u32;
            let port = be_decode_exec(buf, 5, 7) as u16;
            Ok(
                (
                    Address::SocketAddress(SocketAddr { ip: IpAddr::V4(ip), port: port }),
                    7,
                ),
            )
        } else if atyp == 4 {
            if buf.len() < 19 {
                return Err(Error::Incomplete);
            }
            proof {
                lemma_be_decode_bound(buf@.subrange(17, 19));
                assert(pow256(2) == 0x10000) by {
                    reveal_with_fuel(pow256, 3);
                }
            }
            let ip = be_decode_exec(buf, 1, 17);
            let port = be_decode_exec(buf, 17, 19) as u16;
            Ok(
                (
                    Address::SocketAddress(SocketAddr { ip: IpAddr::V6(ip), port: port }),
                    19,
                ),
            )
        } else if atyp == 3 {
            if buf.len() < 2 {
                return Err(Error::Incomplete);
            }
            let dl: usize = buf[1] as usize;
            if buf.len() < 4 + dl {
                return Err(Error::Incomplete);
            }
            proof {
                lemma_be_decode_bound(buf@.subrange(2 + dl as int, 4 + dl as int));
                assert(pow256(2) == 0x10000) by {
                    reveal_with_fuel(pow256, 3);
                }
            }
            let domain = vstd::slice::slice_to_vec(
                vstd::slice::slice_subrange(buf, 2, 2 + dl),
            );
            let port = be_decode_exec(buf, 2 + dl, 4 + dl) as u16;
            Ok((Address::DomainNameAddress(domain, port), 4 + dl))
        } else {
            Err(Error::AddressTypeNotSupported)
        }
    }

    /// Appends the wire encoding of the address to `buf`.
    pub fn write_to(&self, buf: &mut Vec<u8>)
        requires
            addr_view_wf(self@),
        ensures
            final(buf)@ == old(buf)@ + spec_addr_bytes(self@),
    {
        match self {
            Address::SocketAddress(sa) => {
                match sa.ip {
                    IpAddr::V4(x) => {
                        buf.push(1);
                        be_encode_exec(x as u128, 4, buf);
                        be_encode_exec(sa.port as u128, 2, buf);
                        proof {
                            assert(final(buf)@ =~= old(buf)@ + spec_addr_bytes(self@));
                        }
                    },
                    IpAddr::V6(x) => {
                        buf.push(4);
                        be_encode_exec(x, 16, buf);
                        be_encode_exec(sa.port as u128, 2, buf);
                        proof {
                            assert(final(buf)@ =~= old(buf)@ + spec_addr_bytes(self@));
                        }
                    },
                }
            },
            Address::DomainNameAddress(d, p) => {
                buf.push(3);
                buf.push(d.len() as u8);
                buf.extend_from_slice(d.as_slice());
                be_encode_exec(*p as u128, 2, buf);
                proof {
                    assert(final(buf)@ =~= old(buf)@ + spec_addr_bytes(self@));
                }
            },
        }
    }

    /// The length of the wire encoding.
    pub fn serialized_len(&self) -> (n: usize)
        requires
            addr_view_wf(self@),
        ensures
            n as int == spec_addr_bytes(self@).len(),
    {
        proof {
            match self@ {
                AddressView::Ip(sa) => {
                    match sa.ip {
                        IpAddr::V4(x) => {
                            lemma_be_encode_len(x as nat, 4);
                            lemma_be_encode_len(sa.port as nat, 2);
                        },
                        IpAddr::V6(x) => {
                            lemma_be_encode_len(x as nat, 16);
                            lemma_be_encode_len(sa.port as nat, 2);
                        },
                    }
                },
                AddressView::Domain(d, p) => {
                    lemma_be_encode_len(p as nat, 2);
                },
            }
        }
        match self {
            Address::SocketAddress(sa) => {
                match sa.ip {
                    IpAddr::V4(_) => 7,
                    IpAddr::V6(_) => 19,
                }
            },
            Address::DomainNameAddress(d, _) => 4 + d.len(),
        }
    }
}

// ---------------------------------------------------------------------------
// Commands and reply codes
// ---------------------------------------------------------------------------

/// The SOCKS5 request commands.
#[derive(Clone, Copy, Debug, PartialEq, Eq, Structural)]
pub enum Command {
    TcpConnect,
    TcpBind,
    UdpAssociate,
}

/// The command's wire byte.
pub open spec fn spec_command_byte(c: Command) -> u8 {
    match c {
        Command::TcpConnect => 1,
        Command::TcpBind => 2,
        Command::UdpAssociate => 3,
    }
}

/// The command a wire byte denotes, if any.
pub open spec fn spec_command_of_byte(b: u8) -> Option<Command> {
    if b == 1 {
        Some(Command::TcpConnect)
    } else if b == 2 {
        Some(Command::TcpBind)
    } else if b == 3 {
        Some(Command::UdpAssociate)
    } else {
        None
    }
}

impl Command {
    pub fn as_u8(&self) -> (b: u8)
        ensures
            b == spec_command_byte(*self),
    {
        match self {
            Command::TcpConnect => 1,
            Command::TcpBind => 2,
            Command::UdpAssociate => 3,
        }
    }

    pub fn from_u8(b: u8) -> (r: Option<Command>)
        ensures
            r == spec_command_of_byte(b),
    {
        if b == 1 {
            Some(Command::TcpConnect)
        } else if b == 2 {
            Some(Command::TcpBind)
        } else if b == 3 {
            Some(Command::UdpAssociate)
        } else {
            None
        }
    }
}

/// SOCKS5 reply codes (RFC 1928 subset used by the relay).
#[derive(Clone, Copy, Debug, PartialEq, Eq, Structural)]
pub enum Reply {
    Succeeded,
    GeneralFailure,
    NetworkUnreachable,
    HostUnreachable,
    ConnectionRefused,
    CommandNotSupported,
    AddressTypeNotSupported,
}

/// The reply's wire byte.
pub open spec fn spec_reply_byte(r: Reply) -> u8 {
    match r {
        Reply::Succeeded => 0,
        Reply::GeneralFailure => 1,
        Reply::NetworkUnreachable => 3,
        Reply::HostUnreachable => 4,
        Reply::ConnectionRefused => 5,
        Reply::CommandNotSupported => 7,
        Reply::AddressTypeNotSupported => 8,
    }
}

/// The reply a wire byte denotes, if any.
pub open spec fn spec_reply_of_byte(b: u8) -> Option<Reply> {
    if b == 0 {
        Some(Reply::Succeeded)
    } else if b == 1 {
        Some(Reply::GeneralFailure)
    } else if b == 3 {
        Some(Reply::NetworkUnreachable)
    } else if b == 4 {
        Some(Reply::HostUnreachable)
    } else if b == 5 {
        Some(Reply::ConnectionRefused)
    } else if b == 7 {
        Some(Reply::CommandNotSupported)
    } else if b == 8 {
        Some(Reply::AddressTypeNotSupported)
    } else {
        None
    }
}

impl Reply {
    pub fn as_u8(&self) -> (b: u8)
        ensures
            b == spec_reply_byte(*self),
    {
        match self {
            Reply::Succeeded => 0,
            Reply::GeneralFailure => 1,
            Reply::NetworkUnreachable => 3,
            Reply::HostUnreachable => 4,
            Reply::ConnectionRefused => 5,
            Reply::CommandNotSupported => 7,
            Reply::AddressTypeNotSupported => 8,
        }
    }

    pub fn from_u8(b: u8) -> (r: Option<Reply>)
        ensures
            r == spec_reply_of_byte(b),
    {
        if b == 0 {
            Some(Reply::Succeeded)
        } else if b == 1 {
            Some(Reply::GeneralFailure)
        } else if b == 3 {
            Some(Reply::NetworkUnreachable)
        } else if b == 4 {
            Some(Reply::HostUnreachable)
        } else if b == 5 {
            Some(Reply::ConnectionRefused)
        } else if b == 7 {
            Some(Reply::CommandNotSupported)
        } else if b == 8 {
            Some(Reply::AddressTypeNotSupported)
        } else {
            None
        }
    }
}

// ---------------------------------------------------------------------------
// Handshake
// ---------------------------------------------------------------------------

/// `[VER, NMETHODS, METHODS...]` offered by the client.
#[derive(Clone, Debug, PartialEq, Eq)]
pub struct HandshakeRequest {
    pub methods: Vec<u8>,
}

impl View for HandshakeRequest {
    type V = Seq<u8>;

    open spec fn view(&self) -> Seq<u8> {
        self.methods@
    }
}

/// The wire encoding of a handshake request.
pub open spec fn spec_hs_req_bytes(methods: Seq<u8>) -> Seq<u8> {
    seq![5u8, methods.len() as u8] + methods
}

/// The parser for handshake requests.
pub open spec fn spec_parse_hs_req(s: Seq<u8>) -> Result<(Seq<u8>, int), Error> {
    if s.len() < 2 {
        Err(Error::Incomplete)
    } else if s[0] != 5 {
        Err(Error::VersionMismatch)
    } else {
        let n = s[1] as int;
        if s.len() < 2 + n {
            Err(Error::Incomplete)
        } else {
            Ok((s.subrange(2, 2 + n), 2 + n))
        }
    }
}

impl HandshakeRequest {
    pub fn new(methods: Vec<u8>) -> (r: HandshakeRequest)
        ensures
            r@ == methods@,
    {
        HandshakeRequest { methods }
    }

    pub fn read_from(buf: &[u8]) -> (r: Result<(HandshakeRequest, usize), Error>)
        ensures
            match r {
                Ok(p) => spec_parse_hs_req(buf@) == Ok::<(Seq<u8>, int), Error>(
                    (p.0@, p.1 as int),
                ),
                Err(e) => spec_parse_hs_req(buf@) == Err::<(Seq<u8>, int), Error>(e),
            },
    {
        if buf.len() < 2 {
            return Err(Error::Incomplete);
        }
        if buf[0] != SOCKS5_VERSION {
            return Err(Error::VersionMismatch);
        }
        let n: usize = buf[1] as usize;
        if buf.len() < 2 + n {
            return Err(Error::Incomplete);
        }
        let methods = vstd::slice::slice_to_vec(vstd::slice::slice_subrange(buf, 2, 2 + n));
        Ok((HandshakeRequest { methods }, 2 + n))
    }

    pub fn write_to(&self, buf: &mut Vec<u8>)
        requires
            self@.len() <= 255,
        ensures
            final(buf)@ == old(buf)@ + spec_hs_req_bytes(self@),
    {
        buf.push(SOCKS5_VERSION);
        buf.push(self.methods.len() as u8);
        buf.extend_from_slice(self.methods.as_slice());
        proof {
            assert(final(buf)@ =~= old(buf)@ + spec_hs_req_bytes(self@));
        }
    }

    /// Whether the client offered the "no authentication" method.
    pub fn contains_no_auth(&self) -> (r: bool)
        ensures
            r <==> self@.contains(SOCKS5_AUTH_METHOD_NONE),
    {
        let mut i: usize = 0;
        while i < self.methods.len()
            invariant
                i <= self.methods@.len(),
                forall|j: int| 0 <= j < i ==> self.methods@[j] != SOCKS5_AUTH_METHOD_NONE,
            decreases self.methods@.len() - i,
        {
            if self.methods[i] == SOCKS5_AUTH_METHOD_NONE {
                assert(self@[i as int] == SOCKS5_AUTH_METHOD_NONE);
                return true;
            }
            i = i + 1;
        }
        false
    }
}

/// `[VER, METHOD]` chosen by the server.
#[derive(Clone, Copy, Debug, PartialEq, Eq, Structural)]
pub struct HandshakeResponse {
    pub chosen_method: u8,
}

/// The wire encoding of a handshake response.
pub open spec fn spec_hs_resp_bytes(m: u8) -> Seq<u8> {
    seq![5u8, m]
}

/// The parser for handshake responses.
pub open spec fn spec_parse_hs_resp(s: Seq<u8>) -> Result<(u8, int), Error> {
    if s.len() < 2 {
        Err(Error::Incomplete)
    } else if s[0] != 5 {
        Err(Error::VersionMismatch)
    } else {
        Ok((s[1], 2))
    }
}

impl HandshakeResponse {
    pub fn new(chosen_method: u8) -> (r: HandshakeResponse)
        ensures
            r.chosen_method == chosen_method,
    {
        HandshakeResponse { chosen_method }
    }

    pub fn read_from(buf: &[u8]) -> (r: Result<(HandshakeResponse, usize), Error>)
        ensures
            match r {
                Ok(p) => spec_parse_hs_resp(buf@) == Ok::<(u8, int), Error>(
                    (p.0.chosen_method, p.1 as int),
                ),
                Err(e) => spec_parse_hs_resp(buf@) == Err::<(u8, int), Error>(e),
            },
    {
        if buf.len() < 2 {
            return Err(Error::Incomplete);
        }
        if buf[0] != SOCKS5_VERSION {
            return Err(Error::VersionMismatch);
        }
        Ok((HandshakeResponse { chosen_method: buf[1] }, 2))
    }

    pub fn write_to(&self, buf: &mut Vec<u8>)
        ensures
            final(buf)@ == old(buf)@ + spec_hs_resp_bytes(self.chosen_method),
    {
        buf.push(SOCKS5_VERSION);
        buf.push(self.chosen_method);
        proof {
            assert(final(buf)@ =~= old(buf)@ + spec_hs_resp_bytes(self.chosen_method));
        }
    }
}

// ---------------------------------------------------------------------------
// TCP request and response headers
// ---------------------------------------------------------------------------

/// `[VER, CMD, RSV, ATYP, ADDR..., PORT]` sent by the client.
#[derive(Clone, Debug, PartialEq, Eq)]
pub struct TcpRequestHeader {
    pub command: Command,
    pub address: Address,
}

/// The wire encoding of a TCP request header.
pub open spec fn spec_req_bytes(c: Command, a: AddressView) -> Seq<u8> {
    seq![5u8, spec_command_byte(c), 0u8] + spec_addr_bytes(a)
}

/// The parser for TCP request headers.  The reserved byte is not inspected.
pub open spec fn spec_parse_request(s: Seq<u8>) -> Result<(Command, AddressView, int), Error> {
    if s.len() < 3 {
        Err(Error::Incomplete)
    } else if s[0] != 5 {
        Err(Error::VersionMismatch)
    } else {
        match spec_command_of_byte(s[1]) {
            None => Err(Error::UnsupportedCommand),
            Some(cmd) => match spec_parse_address(s.skip(3)) {
                Ok((a, n)) => Ok((cmd, a, 3 + n)),
                Err(e) => Err(e),
            },
        }
    }
}

impl TcpRequestHeader {
    pub fn new(command: Command, address: Address) -> (r: TcpRequestHeader)
        ensures
            r.command == command,
            r.address@ == address@,
    {
        TcpRequestHeader { command, address }
    }

    pub fn read_from(buf: &[u8]) -> (r: Result<(TcpRequestHeader, usize), Error>)
        ensures
            match r {
                Ok(p) => spec_parse_request(buf@) == Ok::<(Command, AddressView, int), Error>(
                    (p.0.command, p.0.address@, p.1 as int),
                ),
                Err(e) => spec_parse_request(buf@) == Err::<(Command, AddressView, int), Error>(e),
            },
    {
        if buf.len() < 3 {
            return Err(Error::Incomplete);
        }
        if buf[0] != SOCKS5_VERSION {
            return Err(Error::VersionMismatch);
        }
        let cmd = match Command::from_u8(buf[1]) {
            None => {
                return Err(Error::UnsupportedCommand);
            },
            Some(c) => c,
        };
        let rest = vstd::slice::slice_subrange(buf, 3, buf.len());
        proof {
            assert(rest@ =~= buf@.skip(3));
        }
        match Address::read_from(rest) {
            Ok((address, n)) => Ok((TcpRequestHeader { command: cmd, address }, 3 + n)),
            Err(e) => Err(e),
        }
    }

    pub fn write_to(&self, buf: &mut Vec<u8>)
        requires
            addr_view_wf(self.address@),
        ensures
            final(buf)@ == old(buf)@ + spec_req_bytes(self.command, self.address@),
    {
        buf.push(SOCKS5_VERSION);
        let c = self.command.as_u8();
        buf.push(c);
        buf.push(0);
        self.address.write_to(buf);
        proof {
            assert(final(buf)@ =~= old(buf)@ + spec_req_bytes(self.command, self.address@));
        }
    }
}

/// `[VER, REP, RSV, ATYP, ADDR..., PORT]` sent back to the client.
#[derive(Clone, Debug, PartialEq, Eq)]
pub struct TcpResponseHeader {
    pub reply: Reply,
    pub address: Address,
}

/// The wire encoding of a TCP response header.
pub open spec fn spec_resp_bytes(r: Reply, a: AddressView) -> Seq<u8> {
    seq![5u8, spec_reply_byte(r), 0u8] + spec_addr_bytes(a)
}

/// The parser for TCP response headers.  The reserved byte is not inspected.
pub open spec fn spec_parse_response(s: Seq<u8>) -> Result<(Reply, AddressView, int), Error> {
    if s.len() < 3 {
        Err(Error::Incomplete)
    } else if s[0] != 5 {
        Err(Error::VersionMismatch)
    } else {
        match spec_reply_of_byte(s[1]) {
            None => Err(Error::MalformedHeader),
            Some(rep) => match spec_parse_address(s.skip(3)) {
                Ok((a, n)) => Ok((rep, a, 3 + n)),
                Err(e) => Err(e),
            },
        }
    }
}

impl TcpResponseHeader {
    pub fn new(reply: Reply, address: Address) -> (r: TcpResponseHeader)
        ensures
            r.reply == reply,
            r.address@ == address@,
    {
        TcpResponseHeader { reply, address }
    }

    pub fn read_from(buf: &[u8]) -> (r: Result<(TcpResponseHeader, usize), Error>)
        ensures
            match r {
                Ok(p) => spec_parse_response(buf@) == Ok::<(Reply, AddressView, int), Error>(
                    (p.0.reply, p.0.address@, p.1 as int),
                ),
                Err(e) => spec_parse_response(buf@) == Err::<(Reply, AddressView, int), Error>(e),
            },
    {
        if buf.len() < 3 {
            return Err(Error::Incomplete);
        }
        if buf[0] != SOCKS5_VERSION {
            return Err(Error::VersionMismatch);
        }
        let rep = match Reply::from_u8(buf[1]) {
            None => {
                return Err(Error::MalformedHeader);
            },
            Some(r) => r,
        };
        let rest = vstd::slice::slice_subrange(buf, 3, buf.len());
        proof {
            assert(rest@ =~= buf@.skip(3));
        }
        match Address::read_from(rest) {
            Ok((address, n)) => Ok((TcpResponseHeader { reply: rep, address }, 3 + n)),
            Err(e) => Err(e),
        }
    }

    pub fn write_to(&self, buf: &mut Vec<u8>)
        requires
            addr_view_wf(self.address@),
        ensures
            final(buf)@ == old(buf)@ + spec_resp_bytes(self.reply, self.address@),
    {
        buf.push(SOCKS5_VERSION);
        let r = self.reply.as_u8();
        buf.push(r);
        buf.push(0);
        self.address.write_to(buf);
        proof {
            assert(final(buf)@ =~= old(buf)@ + spec_resp_bytes(self.reply, self.address@));
        }
    }
}

} // verus!
