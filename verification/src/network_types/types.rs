//! Hosts by name or by address, and the addresses that they resolve to.

use vstd::prelude::*;

verus! {

/// An IP address.
#[derive(Clone, Copy, Debug, PartialEq, Eq)]
pub enum IpAddr {
    V4([u8; 4]),
    V6([u8; 16]),
}

/// An IP address with a port.
#[derive(Clone, Copy, Debug, PartialEq, Eq)]
pub struct SocketAddr {
    pub ip: IpAddr,
    pub port: u16,
    /// The flow label of an IPv6 address; zero otherwise.
    pub flowinfo: u32,
    /// The scope of an IPv6 address; zero otherwise.
    pub scope_id: u32,
}

/// A host with a port: a DNS name, or an IP address.
#[derive(Debug, PartialEq, Eq)]
pub enum IpOrHost {
    /// DNS name and port.
    Dns(String, u16),
    /// IP address with port.
    Ip(SocketAddr),
}

/// What resolving a host takes.
#[derive(Debug, PartialEq, Eq)]
pub enum Resolution {
    /// Nothing: these are its addresses.
    Resolved(Vec<SocketAddr>),
    /// A lookup of this name; what it finds is to be combined with this port by [`with_port`].
    Lookup(String, u16),
}

/// How a host is resolved.
pub trait IpOrHostExt: Sized {
    /// What the host is.
    spec fn target(self) -> IpOrHost;

    /// Tells which DNS name to look up to find all IP addresses of the host. If this is already an IP
    /// address and port, it is simply the result.
    fn resolve_tokio(self) -> (resolution: Resolution)
        ensures
            match self.target() {
                IpOrHost::Dns(name, port) => resolution == Resolution::Lookup(name, port),
                IpOrHost::Ip(address) => resolution matches Resolution::Resolved(found) && found@ == seq![address],
            },
    ;
}

impl IpOrHostExt for IpOrHost {
    open spec fn target(self) -> IpOrHost {
        self
    }

    fn resolve_tokio(self) -> (resolution: Resolution) {
        match self {
            IpOrHost::Dns(name, port) => Resolution::Lookup(name, port),
            IpOrHost::Ip(address) => {
                let mut found: Vec<SocketAddr> = Vec::new();
                found.push(address);
                assert(found@ =~= seq![address]);
                Resolution::Resolved(found)
            },
        }
    }
}

/// The address of a port on a host.
pub open spec fn socket_address(ip: IpAddr, port: u16) -> SocketAddr {
    SocketAddr { ip, port, flowinfo: 0, scope_id: 0 }
}

/// Combines the addresses that a lookup has found with a port, in the order in which they were found.
pub fn with_port(found: &Vec<IpAddr>, port: u16) -> (addresses: Vec<SocketAddr>)
    ensures
        addresses@ == found@.map_values(|ip: IpAddr| socket_address(ip, port)),
{
    let mut addresses: Vec<SocketAddr> = Vec::new();
    let count: usize = found.len();
    let mut i: usize = 0;
    while i < count
        invariant
            i <= count,
            count == found@.len(),
            addresses@ == found@.take(i as int).map_values(|ip: IpAddr| socket_address(ip, port)),
        decreases count - i,
    {
        addresses.push(SocketAddr { ip: found[i], port, flowinfo: 0, scope_id: 0 });
        assert(addresses@ =~= found@.take(i + 1).map_values(|ip: IpAddr| socket_address(ip, port)));
        i += 1;
    }
    assert(found@.take(count as int) =~= found@);
    addresses
}

/// An address with a port has both as they were given, and neither a flow label nor a scope.
pub proof fn an_address_keeps_its_host_and_port(ip: IpAddr, port: u16)
    ensures
        socket_address(ip, port).ip == ip,
        socket_address(ip, port).port == port,
        socket_address(ip, port).flowinfo == 0,
        socket_address(ip, port).scope_id == 0,
{
}

} // verus!
