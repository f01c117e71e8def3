//! Socket addresses as plain values.

use vstd::prelude::*;

verus! {

/// An IP address, as the number that its octets form in network byte order.
#[derive(Debug, Clone, Copy, PartialEq, Eq, Structural)]
pub enum IpAddr {
    V4(u32),
    V6(u128),
}

/// An IP address with a port; for IPv6 with flow information and scope too.
#[derive(Debug, Clone, Copy, PartialEq, Eq, Structural)]
pub enum SocketAddr {
    V4 { ipv4: u32, port: u16 },
    V6 { ipv6: u128, port: u16, flowinfo: u32, scope_id: u32 },
}

impl SocketAddr {
    pub open spec fn spec_ip(self) -> IpAddr {
        match self {
            SocketAddr::V4 { ipv4, .. } => IpAddr::V4(ipv4),
            SocketAddr::V6 { ipv6, .. } => IpAddr::V6(ipv6),
        }
    }

    pub open spec fn spec_port(self) -> u16 {
        match self {
            SocketAddr::V4 { port, .. } => port,
            SocketAddr::V6 { port, .. } => port,
        }
    }

    /// The IPv4 address `0.0.0.0` with the given port.
    pub open spec fn spec_any(port: u16) -> SocketAddr {
        SocketAddr::V4 { ipv4: 0, port }
    }

    pub fn ip(&self) -> (ip: IpAddr)
        ensures
            ip == self.spec_ip(),
    {
        match *self {
            SocketAddr::V4 { ipv4, .. } => IpAddr::V4(ipv4),
            SocketAddr::V6 { ipv6, .. } => IpAddr::V6(ipv6),
        }
    }

    pub fn port(&self) -> (port: u16)
        ensures
            port == self.spec_port(),
    {
        match *self {
            SocketAddr::V4 { port, .. } => port,
            SocketAddr::V6 { port, .. } => port,
        }
    }

    /// The IPv4 address `0.0.0.0` with the given port.
    pub fn any(port: u16) -> (addr: SocketAddr)
        ensures
            addr == SocketAddr::spec_any(port),
    {
        SocketAddr::V4 { ipv4: 0, port }
    }
}

/// The parts of an address are those that it was made of, and `any` is the IPv4
/// address of four zero octets.
pub proof fn lemma_parts(ipv4: u32, ipv6: u128, port: u16, flowinfo: u32, scope_id: u32)
    ensures
        (SocketAddr::V4 { ipv4, port }).spec_ip() == IpAddr::V4(ipv4),
        (SocketAddr::V4 { ipv4, port }).spec_port() == port,
        (SocketAddr::V6 { ipv6, port, flowinfo, scope_id }).spec_ip() == IpAddr::V6(ipv6),
        (SocketAddr::V6 { ipv6, port, flowinfo, scope_id }).spec_port() == port,
        SocketAddr::spec_any(port) == (SocketAddr::V4 { ipv4: 0, port }),
        SocketAddr::spec_any(port).spec_port() == port,
{
}

} // verus!
