//! Configuration the relay core consumes: server endpoints, the local
//! listen address, the relay mode, and the forbidden-IP list.

use vstd::prelude::*;
use crate::crypto::cipher::CipherType;
use crate::relay::socks5::{IpAddr, SocketAddr};

verus! {

/// A server endpoint: a literal socket address, or a host name with a port
/// that needs resolving.
#[derive(Clone, Debug, PartialEq, Eq)]
pub enum ServerAddr {
    SocketAddr(SocketAddr),
    DomainName(Vec<u8>, u16),
}

/// A SIP003 plugin: program name and options, launched outside the core.
/// The relay only carries the descriptor.
#[derive(Clone, Debug, PartialEq, Eq)]
pub struct PluginConfig {
    pub plugin: Vec<u8>,
    pub plugin_opt: Option<Vec<u8>>,
}

/// One backend server: where it is, its password, its cipher method, and
/// optional timeout and plugin.
#[derive(Clone, Debug, PartialEq, Eq)]
pub struct ServerConfig {
    pub addr: ServerAddr,
    pub password: Vec<u8>,
    pub method: CipherType,
    /// Per-connection timeout, in seconds.
    pub timeout: Option<u64>,
    pub plugin: Option<PluginConfig>,
}

impl ServerConfig {
    /// A server with only the required fields set.
    pub fn basic(addr: ServerAddr, password: Vec<u8>, method: CipherType) -> (c: ServerConfig)
        ensures
            c.addr == addr,
            c.password@ == password@,
            c.method == method,
            c.timeout is None,
            c.plugin is None,
    {
        ServerConfig { addr, password, method, timeout: None, plugin: None }
    }

    /// A server with every field given.
    pub fn new(
        addr: ServerAddr,
        password: Vec<u8>,
        method: CipherType,
        timeout: Option<u64>,
        plugin: Option<PluginConfig>,
    ) -> (c: ServerConfig)
        ensures
            c.addr == addr,
            c.password@ == password@,
            c.method == method,
            c.timeout == timeout,
            c.plugin == plugin,
    {
        ServerConfig { addr, password, method, timeout, plugin }
    }

    /// Installs a plugin descriptor.
    pub fn set_plugin(&mut self, plugin: PluginConfig)
        ensures
            final(self).plugin == Some(plugin),
            final(self).addr == old(self).addr,
            final(self).password == old(self).password,
            final(self).method == old(self).method,
            final(self).timeout == old(self).timeout,
    {
        self.plugin = Some(plugin);
    }

    /// Replaces the endpoint; the plugin launcher points the relay at the
    /// plugin's local address this way.
    pub fn set_addr(&mut self, addr: ServerAddr)
        ensures
            final(self).addr == addr,
            final(self).password == old(self).password,
            final(self).method == old(self).method,
            final(self).timeout == old(self).timeout,
            final(self).plugin == old(self).plugin,
    {
        self.addr = addr;
    }
}

/// Which relays are enabled.
#[derive(Clone, Copy, Debug, PartialEq, Eq, Structural)]
pub enum Mode {
    TcpOnly,
    UdpOnly,
    TcpAndUdp,
}

impl Mode {
    pub fn enable_tcp(&self) -> (r: bool)
        ensures
            r <==> (self is TcpOnly || self is TcpAndUdp),
    {
        match self {
            Mode::TcpOnly => true,
            Mode::UdpOnly => false,
            Mode::TcpAndUdp => true,
        }
    }

    pub fn enable_udp(&self) -> (r: bool)
        ensures
            r <==> (self is UdpOnly || self is TcpAndUdp),
    {
        match self {
            Mode::TcpOnly => false,
            Mode::UdpOnly => true,
            Mode::TcpAndUdp => true,
        }
    }
}

/// The populated configuration the relay core runs on.
#[derive(Clone, Debug, PartialEq, Eq)]
pub struct Config {
    /// Backend servers; at least one on either role.
    pub server: Vec<ServerConfig>,
    /// The SOCKS5 listen address; local role only.
    pub local: Option<SocketAddr>,
    pub mode: Mode,
    /// Destination IPs the server role refuses to contact.
    pub forbidden_ip: Vec<IpAddr>,
    /// Global idle timeout, in seconds.
    pub timeout: Option<u64>,
}

impl Config {
    /// An empty configuration: TCP only, nothing set.
    pub fn new() -> (c: Config)
        ensures
            c.server@.len() == 0,
            c.local is None,
            c.mode == Mode::TcpOnly,
            c.forbidden_ip@.len() == 0,
            c.timeout is None,
    {
        Config {
            server: Vec::new(),
            local: None,
            mode: Mode::TcpOnly,
            forbidden_ip: Vec::new(),
            timeout: None,
        }
    }

    /// Whether `ip` is on the forbidden list.
    pub fn forbidden_contains(&self, ip: &IpAddr) -> (r: bool)
        ensures
            r <==> self.forbidden_ip@.contains(*ip),
    {
        let mut i: usize = 0;
        while i < self.forbidden_ip.len()
            invariant
                i <= self.forbidden_ip@.len(),
                forall|j: int| 0 <= j < i ==> self.forbidden_ip@[j] != *ip,
            decreases self.forbidden_ip@.len() - i,
        {
            if self.forbidden_ip[i] == *ip {
                assert(self.forbidden_ip@[i as int] == *ip);
                return true;
            }
            i = i + 1;
        }
        false
    }
}

} // verus!
