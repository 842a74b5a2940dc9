//! SOCKS5 codec behaviour: address round trips, handshake and header
//! parsing, reply codes.

use shadowsocks::error::Error;
use shadowsocks::relay::socks5::{
    Address, Command, HandshakeRequest, HandshakeResponse, IpAddr, Reply, SocketAddr,
    TcpRequestHeader, TcpResponseHeader,
};

fn v4(a: u8, b: u8, c: u8, d: u8, port: u16) -> SocketAddr {
    let ip = u32::from_be_bytes([a, b, c, d]);
    SocketAddr { ip: IpAddr::V4(ip), port }
}

#[test]
fn address_round_trip_ipv4() {
    let addr = Address::SocketAddress(v4(127, 0, 0, 1, 80));
    let mut buf = Vec::new();
    addr.write_to(&mut buf);
    assert_eq!(buf, vec![1, 127, 0, 0, 1, 0, 80]);
    let (back, n) = Address::read_from(&buf).unwrap();
    assert_eq!(n, buf.len());
    assert_eq!(back, addr);
    assert_eq!(addr.serialized_len(), buf.len());
}

#[test]
fn address_round_trip_ipv6() {
    let ip = 0x2001_0db8_0000_0000_0000_0000_0000_0042u128;
    let addr = Address::SocketAddress(SocketAddr { ip: IpAddr::V6(ip), port: 8388 });
    let mut buf = Vec::new();
    addr.write_to(&mut buf);
    assert_eq!(buf.len(), 19);
    assert_eq!(buf[0], 4);
    assert_eq!(&buf[1..17], &ip.to_be_bytes());
    assert_eq!(&buf[17..19], &8388u16.to_be_bytes());
    let (back, n) = Address::read_from(&buf).unwrap();
    assert_eq!(n, 19);
    assert_eq!(back, addr);
}

#[test]
fn address_round_trip_domain() {
    let addr = Address::DomainNameAddress(b"example.com".to_vec(), 443);
    let mut buf = Vec::new();
    addr.write_to(&mut buf);
    assert_eq!(buf[0], 3);
    assert_eq!(buf[1], 11);
    assert_eq!(&buf[2..13], b"example.com");
    assert_eq!(&buf[13..15], &443u16.to_be_bytes());
    let (back, n) = Address::read_from(&buf).unwrap();
    assert_eq!(n, 15);
    assert_eq!(back, addr);
}

#[test]
fn address_round_trip_longest_domain() {
    let name = vec![b'a'; 255];
    let addr = Address::DomainNameAddress(name.clone(), 1);
    let mut buf = Vec::new();
    addr.write_to(&mut buf);
    assert_eq!(buf.len(), 4 + 255);
    let (back, n) = Address::read_from(&buf).unwrap();
    assert_eq!(n, 4 + 255);
    assert_eq!(back, addr);
}

#[test]
fn address_parse_ignores_trailing_bytes() {
    let mut buf = vec![1, 10, 0, 0, 1, 0, 53];
    buf.extend_from_slice(b"payload");
    let (back, n) = Address::read_from(&buf).unwrap();
    assert_eq!(n, 7);
    assert_eq!(back, Address::SocketAddress(v4(10, 0, 0, 1, 53)));
}

#[test]
fn address_parse_errors() {
    assert_eq!(Address::read_from(&[]).unwrap_err(), Error::Incomplete);
    assert_eq!(Address::read_from(&[1, 127, 0, 0, 1]).unwrap_err(), Error::Incomplete);
    assert_eq!(Address::read_from(&[3, 5, b'a', b'b']).unwrap_err(), Error::Incomplete);
    assert_eq!(Address::read_from(&[9, 0, 0]).unwrap_err(), Error::AddressTypeNotSupported);
}

#[test]
fn handshake_request_round_trip() {
    let req = HandshakeRequest::new(vec![0, 2]);
    let mut buf = Vec::new();
    req.write_to(&mut buf);
    assert_eq!(buf, vec![5, 2, 0, 2]);
    let (back, n) = HandshakeRequest::read_from(&buf).unwrap();
    assert_eq!(n, 4);
    assert_eq!(back.methods, vec![0, 2]);
    assert!(back.contains_no_auth());
}

#[test]
fn handshake_request_version_mismatch() {
    assert_eq!(HandshakeRequest::read_from(&[4, 1, 0]).unwrap_err(), Error::VersionMismatch);
    assert_eq!(HandshakeRequest::read_from(&[5]).unwrap_err(), Error::Incomplete);
    assert_eq!(HandshakeRequest::read_from(&[5, 3, 0, 1]).unwrap_err(), Error::Incomplete);
}

#[test]
fn handshake_response_round_trip() {
    let resp = HandshakeResponse::new(0);
    let mut buf = Vec::new();
    resp.write_to(&mut buf);
    assert_eq!(buf, vec![5, 0]);
    let (back, n) = HandshakeResponse::read_from(&buf).unwrap();
    assert_eq!(n, 2);
    assert_eq!(back.chosen_method, 0);
}

#[test]
fn request_header_round_trip() {
    let header = TcpRequestHeader::new(
        Command::TcpConnect,
        Address::SocketAddress(v4(127, 0, 0, 1, 80)),
    );
    let mut buf = Vec::new();
    header.write_to(&mut buf);
    assert_eq!(buf, vec![5, 1, 0, 1, 127, 0, 0, 1, 0, 80]);
    let (back, n) = TcpRequestHeader::read_from(&buf).unwrap();
    assert_eq!(n, 10);
    assert_eq!(back, header);
}

#[test]
fn request_header_errors() {
    assert_eq!(
        TcpRequestHeader::read_from(&[4, 1, 0, 1, 0, 0, 0, 0, 0, 0]).unwrap_err(),
        Error::VersionMismatch,
    );
    assert_eq!(
        TcpRequestHeader::read_from(&[5, 9, 0, 1, 0, 0, 0, 0, 0, 0]).unwrap_err(),
        Error::UnsupportedCommand,
    );
    assert_eq!(TcpRequestHeader::read_from(&[5, 1]).unwrap_err(), Error::Incomplete);
}

#[test]
fn response_header_round_trip() {
    let header = TcpResponseHeader::new(
        Reply::Succeeded,
        Address::SocketAddress(v4(0, 0, 0, 0, 1080)),
    );
    let mut buf = Vec::new();
    header.write_to(&mut buf);
    assert_eq!(&buf[..4], &[5, 0, 0, 1]);
    let (back, n) = TcpResponseHeader::read_from(&buf).unwrap();
    assert_eq!(n, buf.len());
    assert_eq!(back, header);
}

#[test]
fn response_header_malformed_reply() {
    assert_eq!(
        TcpResponseHeader::read_from(&[5, 99, 0, 1, 0, 0, 0, 0, 0, 0]).unwrap_err(),
        Error::MalformedHeader,
    );
}

#[test]
fn reply_codes() {
    assert_eq!(Reply::Succeeded.as_u8(), 0);
    assert_eq!(Reply::GeneralFailure.as_u8(), 1);
    assert_eq!(Reply::NetworkUnreachable.as_u8(), 3);
    assert_eq!(Reply::HostUnreachable.as_u8(), 4);
    assert_eq!(Reply::ConnectionRefused.as_u8(), 5);
    assert_eq!(Reply::CommandNotSupported.as_u8(), 7);
    assert_eq!(Reply::AddressTypeNotSupported.as_u8(), 8);
    assert_eq!(Reply::from_u8(7), Some(Reply::CommandNotSupported));
    assert_eq!(Reply::from_u8(2), None);
    assert_eq!(Command::from_u8(1), Some(Command::TcpConnect));
    assert_eq!(Command::from_u8(2), Some(Command::TcpBind));
    assert_eq!(Command::from_u8(3), Some(Command::UdpAssociate));
    assert_eq!(Command::from_u8(4), None);
    assert_eq!(Command::UdpAssociate.as_u8(), 3);
}
