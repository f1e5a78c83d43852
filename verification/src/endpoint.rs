//! The endpoint model: addresses, and the two shapes an endpoint can take.

use vstd::prelude::*;

verus! {

/// An IP address, held as the big-endian integer of its octets.
#[derive(Clone, Copy, Debug, PartialEq, Eq, Structural)]
pub enum IpAddress {
    V4(u32),
    V6(u128),
}

/// A concrete transport address: an IP address and a port.
#[derive(Clone, Copy, Debug, PartialEq, Eq, Structural)]
pub struct SocketAddress {
    pub ip: IpAddress,
    pub port: u16,
}

/// The target of a call: a concrete address, or a host name and a port.
#[derive(Debug, PartialEq, Eq)]
pub enum Endpoint {
    SocketAddr(SocketAddress),
    Host(String, u16),
}

/// The failure of turning the caller's input into an `Endpoint`.
#[derive(Clone, Copy, Debug, PartialEq, Eq, Structural)]
pub struct MalformedEndpoint;

/// The mathematical value of an `Endpoint`.
pub enum EndpointView {
    SocketAddr(SocketAddress),
    Host(Seq<char>, u16),
}

impl View for Endpoint {
    type V = EndpointView;

    open spec fn view(&self) -> EndpointView {
        match *self {
            Endpoint::SocketAddr(addr) => EndpointView::SocketAddr(addr),
            Endpoint::Host(name, port) => EndpointView::Host(name@, port),
        }
    }
}

/// The integer of the four octets `a.b.c.d`, most significant first.
pub open spec fn v4_value(a: u8, b: u8, c: u8, d: u8) -> int {
    a as int * 0x100_0000 + b as int * 0x1_0000 + c as int * 0x100 + d as int
}

/// Each address of `ips`, in order, paired with `port`.
pub open spec fn with_port(ips: Seq<IpAddress>, port: u16) -> Seq<SocketAddress> {
    Seq::new(ips.len(), |i: int| SocketAddress { ip: ips[i], port })
}

impl IpAddress {
    /// The IPv4 address `a.b.c.d`.
    pub fn v4(a: u8, b: u8, c: u8, d: u8) -> (ip: IpAddress)
        ensures
            ip == IpAddress::V4(v4_value(a, b, c, d) as u32),
            v4_value(a, b, c, d) <= u32::MAX,
    {
        let hi: u32 = a as u32 * 0x100_0000 + b as u32 * 0x1_0000;
        let lo: u32 = c as u32 * 0x100 + d as u32;
        IpAddress::V4(hi + lo)
    }
}

impl SocketAddress {
    /// The address made of `ip` and `port`.
    pub fn new(ip: IpAddress, port: u16) -> (addr: SocketAddress)
        ensures
            addr == (SocketAddress { ip, port }),
    {
        SocketAddress { ip, port }
    }
}

/// Combines each resolved IP address with the endpoint's port, keeping the
/// resolver's order.
pub fn join_port(ips: &Vec<IpAddress>, port: u16) -> (addrs: Vec<SocketAddress>)
    ensures
        addrs@ == with_port(ips@, port),
{
    let mut addrs: Vec<SocketAddress> = Vec::new();
    let mut i: usize = 0;
    while i < ips.len()
        invariant
            i <= ips.len(),
            addrs@.len() == i,
            forall|j: int| 0 <= j < i ==> #[trigger] addrs@[j] == (SocketAddress { ip: ips@[j], port }),
        decreases ips.len() - i,
    {
        addrs.push(SocketAddress { ip: ips[i], port });
        i += 1;
    }
    assert(addrs@ =~= with_port(ips@, port));
    addrs
}

} // verus!
