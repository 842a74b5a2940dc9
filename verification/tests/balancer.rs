//! Round-robin selection and configuration behaviour.

use shadowsocks::config::{Config, Mode, ServerAddr, ServerConfig};
use shadowsocks::crypto::cipher::CipherType;
use shadowsocks::relay::loadbalancing::RoundRobin;
use shadowsocks::relay::socks5::{IpAddr, SocketAddr};

fn server(port: u16) -> ServerConfig {
    ServerConfig::basic(
        ServerAddr::SocketAddr(SocketAddr { ip: IpAddr::V4(0x7f000001), port }),
        b"pw".to_vec(),
        CipherType::Aes256Cfb,
    )
}

#[test]
fn round_robin_order() {
    // 3 configured servers, 6 successive accepts: A B C A B C.
    let servers = vec![server(1), server(2), server(3)];
    let mut rr = RoundRobin::new(servers);
    assert_eq!(rr.total(), 3);
    let picks: Vec<usize> = (0..6).map(|_| rr.pick_server()).collect();
    assert_eq!(picks, vec![0, 1, 2, 0, 1, 2]);
}

#[test]
fn round_robin_fair_counts() {
    // Over 7 picks on 3 servers each index is hit 2 or 3 times.
    let servers = vec![server(1), server(2), server(3)];
    let mut rr = RoundRobin::new(servers);
    let mut counts = [0usize; 3];
    for _ in 0..7 {
        counts[rr.pick_server()] += 1;
    }
    assert_eq!(counts.iter().sum::<usize>(), 7);
    for c in counts {
        assert!(c == 2 || c == 3);
    }
}

#[test]
fn round_robin_single_server() {
    let mut rr = RoundRobin::new(vec![server(1)]);
    for _ in 0..4 {
        assert_eq!(rr.pick_server(), 0);
    }
    assert_eq!(rr.server_at(0).timeout, None);
}

#[test]
fn mode_flags() {
    assert!(Mode::TcpOnly.enable_tcp());
    assert!(!Mode::TcpOnly.enable_udp());
    assert!(!Mode::UdpOnly.enable_tcp());
    assert!(Mode::UdpOnly.enable_udp());
    assert!(Mode::TcpAndUdp.enable_tcp());
    assert!(Mode::TcpAndUdp.enable_udp());
}

#[test]
fn config_forbidden_lookup() {
    let mut c = Config::new();
    c.forbidden_ip.push(IpAddr::V4(0x0a000001));
    c.forbidden_ip.push(IpAddr::V6(1));
    assert!(c.forbidden_contains(&IpAddr::V4(0x0a000001)));
    assert!(c.forbidden_contains(&IpAddr::V6(1)));
    assert!(!c.forbidden_contains(&IpAddr::V4(0x0a000002)));
    assert!(!c.forbidden_contains(&IpAddr::V6(2)));
}

#[test]
fn server_config_setters() {
    let mut sc = server(8388);
    sc.set_plugin(shadowsocks::config::PluginConfig {
        plugin: b"obfs-local".to_vec(),
        plugin_opt: None,
    });
    assert!(sc.plugin.is_some());
    sc.set_addr(ServerAddr::DomainName(b"plugin.local".to_vec(), 9999));
    assert_eq!(sc.addr, ServerAddr::DomainName(b"plugin.local".to_vec(), 9999));
    assert!(sc.plugin.is_some());
}
