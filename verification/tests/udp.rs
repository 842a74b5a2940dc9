//! UDP relay behaviour: the per-datagram round trip and the size guard.

use shadowsocks::crypto::cipher::CipherType;
use shadowsocks::error::Error;
use shadowsocks::relay::socks5::{Address, IpAddr, SocketAddr};
use shadowsocks::relay::udprelay::crypto_io::{decrypt_payload, encrypt_payload};
use shadowsocks::relay::udprelay::server::{
    build_udp_response, process_datagram, resolve_remote_addr,
};
use shadowsocks::relay::udprelay::MAXIMUM_UDP_PAYLOAD_SIZE;

fn v4(a: u8, b: u8, c: u8, d: u8, port: u16) -> SocketAddr {
    SocketAddr { ip: IpAddr::V4(u32::from_be_bytes([a, b, c, d])), port }
}

#[test]
fn udp_round_trip() {
    // Client frames [ATYP=1][127.0.0.1][53][body] and encrypts; the server
    // recovers target and body, then replies with the same address and the
    // reply payload; the client decrypts and reads both back.
    let t = CipherType::Rc4Md5;
    let key = t.bytes_to_key(b"udp-pass");
    let target = Address::SocketAddress(v4(127, 0, 0, 1, 53));

    let mut request = Vec::new();
    target.write_to(&mut request);
    request.extend_from_slice(b"body");
    let pkt = encrypt_payload(t, &key, &request);

    let (addr, body) = process_datagram(t, &key, &pkt).unwrap();
    assert_eq!(addr, target);
    assert_eq!(body, b"body");

    let reply_pkt = build_udp_response(t, &key, &addr, b"reply").unwrap();
    let plain = decrypt_payload(t, &key, &reply_pkt).unwrap();
    let (back_addr, n) = Address::read_from(&plain).unwrap();
    assert_eq!(back_addr, target);
    assert_eq!(&plain[n..], b"reply");
}

#[test]
fn udp_round_trip_every_method() {
    for t in [
        CipherType::Table,
        CipherType::Dummy,
        CipherType::Rc4Md5,
        CipherType::Aes128Cfb,
        CipherType::Aes192Cfb,
        CipherType::Aes256Cfb,
        CipherType::ChaCha20,
        CipherType::Salsa20,
    ] {
        let key = t.bytes_to_key(b"udp-pass");
        let pkt = encrypt_payload(t, &key, b"datagram");
        assert_eq!(pkt.len(), t.iv_size() + 8);
        let plain = decrypt_payload(t, &key, &pkt).unwrap();
        assert_eq!(plain, b"datagram", "udp round trip failed for {:?}", t);
    }
}

#[test]
fn udp_short_datagram_is_rejected() {
    let t = CipherType::Aes256Cfb;
    let key = t.bytes_to_key(b"short");
    assert_eq!(decrypt_payload(t, &key, &[1, 2, 3]).unwrap_err(), Error::UnexpectedEof);
}

#[test]
fn udp_forbidden_target_is_dropped() {
    let forbidden = vec![IpAddr::V4(u32::from_be_bytes([10, 0, 0, 1]))];
    let addr = Address::SocketAddress(v4(10, 0, 0, 1, 53));
    let res = resolve_remote_addr(&addr, &Vec::new(), &forbidden);
    assert_eq!(res.unwrap_err(), Error::Forbidden);
}

#[test]
fn udp_oversized_reply_is_dropped() {
    let t = CipherType::Aes128Cfb;
    let key = t.bytes_to_key(b"big");
    let addr = Address::SocketAddress(v4(127, 0, 0, 1, 53));
    let payload = vec![0u8; MAXIMUM_UDP_PAYLOAD_SIZE];
    let res = build_udp_response(t, &key, &addr, &payload);
    assert_eq!(res.unwrap_err(), Error::PayloadTooLarge);
    let small = vec![0u8; 512];
    assert!(build_udp_response(t, &key, &addr, &small).is_ok());
}

#[test]
fn udp_malformed_address_is_an_error() {
    let t = CipherType::Dummy;
    let key = t.bytes_to_key(b"");
    // ATYP 9 does not exist.
    let pkt = encrypt_payload(t, &key, &[9, 1, 2, 3]);
    assert_eq!(process_datagram(t, &key, &pkt).unwrap_err(), Error::AddressTypeNotSupported);
}
