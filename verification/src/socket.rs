//! The socket address a server is bound to, held as plain numbers.

use vstd::prelude::*;

verus! {

/// An IP address and port, as the standard library's socket addresses hold
/// them.
#[derive(Debug, Clone, Copy, PartialEq, Eq)]
pub enum SocketAddress {
    /// An IPv4 address: four octets and a port.
    V4 { ip: [u8; 4], port: u16 },
    /// An IPv6 address: eight segments, a port, the flow information and the
    /// scope.
    V6 { ip: [u16; 8], port: u16, flowinfo: u32, scope_id: u32 },
}

impl SocketAddress {
    /// The port of the address.
    pub open spec fn spec_port(self) -> u16 {
        match self {
            SocketAddress::V4 { port, .. } => port,
            SocketAddress::V6 { port, .. } => port,
        }
    }

    /// The port of the address.
    pub fn port(&self) -> (r: u16)
        ensures
            r == self.spec_port(),
    {
        match self {
            SocketAddress::V4 { port, .. } => *port,
            SocketAddress::V6 { port, .. } => *port,
        }
    }

    /// Law: the port of an address is the port it was built with, in both
    /// kinds of address.
    pub proof fn lemma_port_kept(ip4: [u8; 4], ip6: [u16; 8], port: u16, flowinfo: u32, scope_id: u32)
        ensures
            (SocketAddress::V4 { ip: ip4, port }).spec_port() == port,
            (SocketAddress::V6 { ip: ip6, port, flowinfo, scope_id }).spec_port() == port,
    {
    }

    /// Whether the address is an IPv6 address.
    pub fn is_ipv6(&self) -> (r: bool)
        ensures
            r == (*self is V6),
    {
        match self {
            SocketAddress::V4 { .. } => false,
            SocketAddress::V6 { .. } => true,
        }
    }
}

} // verus!
