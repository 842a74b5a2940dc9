//! Server-role UDP relay: per-datagram decisions.
//!
//! The I/O layer binds sockets, applies the deadlines, and carries
//! datagrams; this module decrypts and parses each inbound datagram,
//! applies the forbidden-IP rule, and frames and encrypts each reply.

use vstd::prelude::*;
use crate::crypto::cipher::{spec_iv_size, spec_key_size, CipherType};
use crate::error::Error;
use crate::relay::socks5::{
    addr_view_wf, spec_addr_bytes, spec_parse_address, Address, AddressView, IpAddr, SocketAddr,
};
use crate::relay::tcprelay::server::spec_resolve_remote;
use crate::relay::tcprelay::stream::spec_decode_wire;
use crate::relay::udprelay::crypto_io::{decrypt_payload, encrypt_payload};
use crate::relay::udprelay::MAXIMUM_UDP_PAYLOAD_SIZE;

verus! {

/// Decrypts an inbound datagram and splits it into the target address and
/// the payload destined for it.
pub fn process_datagram(t: CipherType, key: &[u8], pkt: &[u8]) -> (r: Result<
    (Address, Vec<u8>),
    Error,
>)
    requires
        key@.len() == spec_key_size(t),
    ensures
        match r {
            Ok(p) => {
                &&& pkt@.len() >= spec_iv_size(t)
                &&& match spec_parse_address(spec_decode_wire(t, key@, pkt@)) {
                    Ok(parsed) => p.0@ == parsed.0 && p.1@ == spec_decode_wire(
                        t,
                        key@,
                        pkt@,
                    ).skip(parsed.1),
                    Err(_) => false,
                }
            },
            Err(e) => {
                ||| (pkt@.len() < spec_iv_size(t) && e == Error::UnexpectedEof)
                ||| (pkt@.len() >= spec_iv_size(t) && spec_parse_address(
                    spec_decode_wire(t, key@, pkt@),
                ) == Err::<(AddressView, int), Error>(e))
            },
        },
{
    let plain = match decrypt_payload(t, key, pkt) {
        Ok(p) => p,
        Err(e) => {
            return Err(e);
        },
    };
    match Address::read_from(plain.as_slice()) {
        Err(e) => Err(e),
        Ok((addr, n)) => {
            let body = vstd::slice::slice_to_vec(
                vstd::slice::slice_subrange(plain.as_slice(), n, plain.len()),
            );
            Ok((addr, body))
        },
    }
}

/// The concrete target of a datagram, with the forbidden-IP rule applied:
/// a forbidden target means the datagram is dropped, with no send.
pub fn resolve_remote_addr(
    addr: &Address,
    answers: &Vec<SocketAddr>,
    forbidden: &Vec<IpAddr>,
) -> (r: Result<SocketAddr, Error>)
    ensures
        r == spec_resolve_remote(addr@, answers@, forbidden@),
{
    crate::relay::tcprelay::server::TcpRelayServer::resolve_remote(addr, answers, forbidden)
}

/// Frames and encrypts a reply datagram: the request's address, then the
/// target's reply bytes, encrypted whole under a fresh IV.  A datagram
/// that would exceed the maximum UDP payload size after framing is
/// refused and dropped.
pub fn build_udp_response(t: CipherType, key: &[u8], addr: &Address, payload: &[u8]) -> (r: Result<
    Vec<u8>,
    Error,
>)
    requires
        key@.len() == spec_key_size(t),
        addr_view_wf(addr@),
        payload@.len() <= MAXIMUM_UDP_PAYLOAD_SIZE,
    ensures
        match r {
            Ok(pkt) => {
                &&& pkt@.len() <= MAXIMUM_UDP_PAYLOAD_SIZE
                &&& spec_decode_wire(t, key@, pkt@) == spec_addr_bytes(addr@) + payload@
            },
            Err(e) => {
                &&& e == Error::PayloadTooLarge
                &&& spec_iv_size(t) + spec_addr_bytes(addr@).len() + payload@.len()
                    > MAXIMUM_UDP_PAYLOAD_SIZE
            },
        },
{
    let mut frame: Vec<u8> = Vec::new();
    addr.write_to(&mut frame);
    frame.extend_from_slice(payload);
    proof {
        assert(frame@ =~= spec_addr_bytes(addr@) + payload@);
    }
    let ivs = t.iv_size();
    if frame.len() > MAXIMUM_UDP_PAYLOAD_SIZE - ivs {
        return Err(Error::PayloadTooLarge);
    }
    let pkt = encrypt_payload(t, key, frame.as_slice());
    Ok(pkt)
}

} // verus!
