//! End-to-end relay scenarios over the pure session logic: SOCKS5 CONNECT,
//! handshake refusal, BIND, the forbidden-IP rule, and half-close.

use shadowsocks::config::Config;
use shadowsocks::crypto::cipher::CipherType;
use shadowsocks::error::Error;
use shadowsocks::relay::socks5::{
    Address, IpAddr, Reply, SocketAddr, TcpRequestHeader,
};
use shadowsocks::relay::tcprelay::local::{DnsCache, LocalDecision, TcpRelayLocal};
use shadowsocks::relay::tcprelay::server::{TargetStep, TcpRelayServer};
use shadowsocks::relay::tcprelay::stream::{DecryptedReader, EncryptedWriter};
use shadowsocks::relay::tunnel::{
    tunnel_step, CopyProgress, Direction, Endpoint, TunnelAction, TunnelEvent, TunnelState,
};

fn v4(a: u8, b: u8, c: u8, d: u8, port: u16) -> SocketAddr {
    SocketAddr { ip: IpAddr::V4(u32::from_be_bytes([a, b, c, d])), port }
}

#[test]
fn socks5_connect_echo() {
    // Handshake: 05 01 00 -> 05 00.
    let (reply, consumed, ok) = TcpRelayLocal::do_handshake(&[5, 1, 0]).unwrap();
    assert_eq!(reply, vec![5, 0]);
    assert_eq!(consumed, 3);
    assert!(ok);

    // Request: CONNECT 127.0.0.1:80.
    let req = [5, 1, 0, 1, 127, 0, 0, 1, 0, 80];
    let (header, n) = TcpRequestHeader::read_from(&req).unwrap();
    assert_eq!(n, 10);
    let decision = TcpRelayLocal::decide_request(header, false);
    let target = match decision {
        LocalDecision::Connect(a) => a,
        other => panic!("expected Connect, got {:?}", other),
    };
    assert_eq!(target, Address::SocketAddress(v4(127, 0, 0, 1, 80)));

    // Reply: 05 00 00 01 <ip> <port>.
    let resp = TcpRelayLocal::connect_success_reply(v4(127, 0, 0, 1, 1080));
    let mut resp_bytes = Vec::new();
    resp.write_to(&mut resp_bytes);
    assert_eq!(resp_bytes, vec![5, 0, 0, 1, 127, 0, 0, 1, 4, 56]);

    // The destination address travels encrypted as the first payload, then
    // the client's bytes; the server recovers both.
    let t = CipherType::Aes256Cfb;
    let key = t.bytes_to_key(b"echo-pass");
    let iv = t.gen_init_vec();
    let mut w = EncryptedWriter::new(t, &key, iv);
    let mut wire = w.write(&TcpRelayLocal::initial_payload(&target));
    wire.extend_from_slice(&w.write(b"HELLO"));

    let mut r = DecryptedReader::new(t, key.clone());
    let plain = r.feed(&wire);
    let step = TcpRelayServer::read_target(&plain).unwrap();
    let (got, hn) = match step {
        TargetStep::Target(a, hn) => (a, hn),
        TargetStep::NeedMoreData => panic!("address should be complete"),
    };
    assert_eq!(got, target);
    assert_eq!(&plain[hn..], b"HELLO");
    assert!(r.finish().is_ok());
}

#[test]
fn handshake_without_no_auth() {
    // 05 01 02 -> 05 FF, and the session must not continue.
    let (reply, consumed, ok) = TcpRelayLocal::do_handshake(&[5, 1, 2]).unwrap();
    assert_eq!(reply, vec![5, 255]);
    assert_eq!(consumed, 3);
    assert!(!ok);
}

#[test]
fn handshake_needs_more_bytes() {
    assert_eq!(TcpRelayLocal::do_handshake(&[5, 2, 0]).unwrap_err(), Error::Incomplete);
    assert_eq!(TcpRelayLocal::do_handshake(&[4, 1, 0]).unwrap_err(), Error::VersionMismatch);
}

#[test]
fn bind_is_refused() {
    // 05 02 00 01 7F 00 00 01 00 50 -> reply starts 05 07.
    let req = [5, 2, 0, 1, 127, 0, 0, 1, 0, 80];
    let (header, _) = TcpRequestHeader::read_from(&req).unwrap();
    let addr = header.address.clone();
    let decision = TcpRelayLocal::decide_request(header, true);
    let reply = match decision {
        LocalDecision::ReplyAndClose(r) => r,
        other => panic!("expected ReplyAndClose, got {:?}", other),
    };
    assert_eq!(reply, Reply::CommandNotSupported);
    let resp = shadowsocks::relay::socks5::TcpResponseHeader::new(reply, addr);
    let mut bytes = Vec::new();
    resp.write_to(&mut bytes);
    assert_eq!(&bytes[..2], &[5, 7]);
}

#[test]
fn udp_associate_depends_on_mode() {
    let req = [5, 3, 0, 1, 0, 0, 0, 0, 0, 0];
    let (header, _) = TcpRequestHeader::read_from(&req).unwrap();
    let d1 = TcpRelayLocal::decide_request(header.clone(), true);
    assert!(matches!(d1, LocalDecision::UdpAssociate));
    let d2 = TcpRelayLocal::decide_request(header, false);
    assert!(matches!(d2, LocalDecision::ReplyAndClose(Reply::CommandNotSupported)));
}

#[test]
fn forbidden_ip_drops_connection() {
    // Server-role config forbids 10.0.0.1; a local instance asks for it;
    // the server refuses before any outbound connect.
    let t = CipherType::Aes128Cfb;
    let key = t.bytes_to_key(b"forbid");
    let iv = t.gen_init_vec();
    let target = Address::SocketAddress(v4(10, 0, 0, 1, 80));
    let mut w = EncryptedWriter::new(t, &key, iv);
    let wire = w.write(&TcpRelayLocal::initial_payload(&target));

    let mut r = DecryptedReader::new(t, key);
    let plain = r.feed(&wire);
    let step = TcpRelayServer::read_target(&plain).unwrap();
    let addr = match step {
        TargetStep::Target(a, _) => a,
        TargetStep::NeedMoreData => panic!("address should be complete"),
    };
    let forbidden = vec![IpAddr::V4(u32::from_be_bytes([10, 0, 0, 1]))];
    let answers = Vec::new();
    let res = TcpRelayServer::resolve_remote(&addr, &answers, &forbidden);
    assert_eq!(res.unwrap_err(), Error::Forbidden);
}

#[test]
fn forbidden_list_misses_other_ips() {
    let forbidden = vec![IpAddr::V4(u32::from_be_bytes([10, 0, 0, 1]))];
    let addr = Address::SocketAddress(v4(10, 0, 0, 2, 80));
    let res = TcpRelayServer::resolve_remote(&addr, &Vec::new(), &forbidden);
    assert_eq!(res.unwrap(), v4(10, 0, 0, 2, 80));
}

#[test]
fn domain_resolution_takes_first_answer() {
    let addr = Address::DomainNameAddress(b"example.com".to_vec(), 80);
    let answers = vec![v4(93, 184, 216, 34, 80), v4(1, 2, 3, 4, 80)];
    let res = TcpRelayServer::resolve_remote(&addr, &answers, &Vec::new());
    assert_eq!(res.unwrap(), v4(93, 184, 216, 34, 80));
    let none = TcpRelayServer::resolve_remote(&addr, &Vec::new(), &Vec::new());
    assert_eq!(none.unwrap_err(), Error::NoAnswer);
}

#[test]
fn half_close_keeps_reverse_direction() {
    let s = TunnelState::new();
    let (s1, acts) = tunnel_step(s, TunnelEvent::SourceEof(Direction::ClientToRemote));
    assert_eq!(s1.client_to_remote, CopyProgress::Done);
    assert_eq!(s1.remote_to_client, CopyProgress::Running);
    assert_eq!(
        acts,
        vec![
            TunnelAction::ShutdownWrite(Endpoint::Remote),
            TunnelAction::ShutdownRead(Endpoint::Client),
        ]
    );
    assert!(!s1.closed());
    // The reverse copy later ends on its own; only then is the session over.
    let (s2, acts2) = tunnel_step(s1, TunnelEvent::SourceEof(Direction::RemoteToClient));
    assert_eq!(
        acts2,
        vec![
            TunnelAction::ShutdownWrite(Endpoint::Client),
            TunnelAction::ShutdownRead(Endpoint::Remote),
        ]
    );
    assert!(s2.closed());
}

#[test]
fn copy_error_tears_down_session() {
    let s = TunnelState::new();
    let (s1, acts) = tunnel_step(s, TunnelEvent::CopyError(Direction::RemoteToClient));
    assert!(s1.closed());
    assert_eq!(acts.len(), 4);
}

#[test]
fn expected_eof_classification() {
    assert!(Error::BrokenPipe.is_expected_eof());
    assert!(Error::UnexpectedEof.is_expected_eof());
    assert!(!Error::Timeout.is_expected_eof());
    assert!(!Error::Forbidden.is_expected_eof());
}

#[test]
fn connect_error_mapping() {
    assert_eq!(
        TcpRelayLocal::map_connect_error(Error::ConnectionRefused),
        Reply::HostUnreachable
    );
    assert_eq!(TcpRelayLocal::map_connect_error(Error::ConnectionReset), Reply::HostUnreachable);
    assert_eq!(
        TcpRelayLocal::map_connect_error(Error::ConnectionAborted),
        Reply::HostUnreachable
    );
    assert_eq!(TcpRelayLocal::map_connect_error(Error::Timeout), Reply::NetworkUnreachable);
    assert_eq!(
        TcpRelayLocal::map_connect_error(Error::TransportFailure),
        Reply::NetworkUnreachable
    );
}

#[test]
fn local_relay_requires_server_and_local() {
    let mut c = Config::new();
    assert_eq!(TcpRelayLocal::new(c.clone()).unwrap_err(), Error::MissingServerConfig);
    c.server.push(shadowsocks::config::ServerConfig::basic(
        shadowsocks::config::ServerAddr::SocketAddr(v4(127, 0, 0, 1, 8388)),
        b"pw".to_vec(),
        CipherType::Aes256Cfb,
    ));
    assert_eq!(TcpRelayLocal::new(c.clone()).unwrap_err(), Error::MissingLocalConfig);
    c.local = Some(v4(127, 0, 0, 1, 1080));
    assert!(TcpRelayLocal::new(c.clone()).is_ok());
    let mut empty = Config::new();
    empty.local = Some(v4(127, 0, 0, 1, 1080));
    assert_eq!(TcpRelayServer::new(Config::new()).unwrap_err(), Error::MissingServerConfig);
    assert!(TcpRelayServer::new(c).is_ok());
}

#[test]
fn short_iv_read_is_unexpected_eof() {
    let t = CipherType::Aes256Cfb;
    let key = t.bytes_to_key(b"short");
    let mut r = DecryptedReader::new(t, key);
    let out = r.feed(&[1, 2, 3]);
    assert!(out.is_empty());
    assert_eq!(r.finish().unwrap_err(), Error::UnexpectedEof);
}

#[test]
fn iv_arrives_in_pieces() {
    let t = CipherType::ChaCha20;
    let key = t.bytes_to_key(b"pieces");
    let iv = t.gen_init_vec();
    let mut w = EncryptedWriter::new(t, &key, iv.clone());
    let wire = w.write(b"split-iv payload");
    // The first iv_size bytes of the wire are exactly the IV, in clear.
    assert_eq!(&wire[..8], &iv[..]);
    let mut r = DecryptedReader::new(t, key);
    let mut plain = Vec::new();
    for chunk in wire.chunks(3) {
        plain.extend_from_slice(&r.feed(chunk));
    }
    assert_eq!(plain, b"split-iv payload");
    assert!(r.finish().is_ok());
}

#[test]
fn dns_cache_returns_first_insert() {
    let mut cache = DnsCache::new();
    assert_eq!(cache.get(b"proxy.example"), None);
    cache.insert(b"proxy.example".to_vec(), v4(192, 0, 2, 1, 0));
    cache.insert(b"other.example".to_vec(), v4(192, 0, 2, 2, 0));
    assert_eq!(cache.get(b"proxy.example"), Some(v4(192, 0, 2, 1, 0)));
    assert_eq!(cache.get(b"other.example"), Some(v4(192, 0, 2, 2, 0)));
    assert_eq!(cache.get(b"missing.example"), None);
}

#[test]
fn server_addr_port_override() {
    let resolved = v4(192, 0, 2, 7, 53);
    let fixed = shadowsocks::relay::tcprelay::local::server_addr_with_port(resolved, 8388);
    assert_eq!(fixed, v4(192, 0, 2, 7, 8388));
}
