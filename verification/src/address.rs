//! Network addresses as plain values.

use vstd::prelude::*;

verus! {

/// An IPv4 or IPv6 address, held as its octets in network order.
#[derive(Clone, Copy, Debug, PartialEq, Eq)]
pub enum IpAddress {
    V4([u8; 4]),
    V6([u8; 16]),
}

/// An IP address together with a port.
#[derive(Clone, Copy, Debug, PartialEq, Eq)]
pub struct SocketAddress {
    pub ip: IpAddress,
    pub port: u16,
}

/// Whether two IPv4 addresses have the same octets.
pub fn same_v4(a: &[u8; 4], b: &[u8; 4]) -> (same: bool)
    ensures
        same == (*a == *b),
{
    let same = a[0] == b[0] && a[1] == b[1] && a[2] == b[2] && a[3] == b[3];
    proof {
        if same {
            assert(*a =~= *b);
        }
    }
    same
}

/// Whether two IPv6 addresses have the same octets.
pub fn same_v6(a: &[u8; 16], b: &[u8; 16]) -> (same: bool)
    ensures
        same == (*a == *b),
{
    let mut i: usize = 0;
    while i < 16
        invariant
            i <= 16,
            forall|j: int| 0 <= j < i ==> a@[j] == b@[j],
        decreases 16 - i,
    {
        if a[i] != b[i] {
            return false;
        }
        i += 1;
    }
    proof {
        assert(*a =~= *b);
    }
    true
}

impl IpAddress {
    /// The octets of this address, most significant first.
    pub open spec fn octets(self) -> Seq<u8> {
        match self {
            IpAddress::V4(o) => o@,
            IpAddress::V6(o) => o@,
        }
    }

    /// The IPv4 wildcard address `0.0.0.0`.
    pub fn unspecified_v4() -> (ip: IpAddress)
        ensures
            ip is V4,
            ip.octets() == Seq::new(4, |i: int| 0u8),
    {
        IpAddress::V4([0u8; 4])
    }

    /// The IPv6 wildcard address `::`.
    pub fn unspecified_v6() -> (ip: IpAddress)
        ensures
            ip is V6,
            ip.octets() == Seq::new(16, |i: int| 0u8),
    {
        IpAddress::V6([0u8; 16])
    }

    /// Whether this is an IPv4 address.
    pub fn is_v4(&self) -> (v4: bool)
        ensures
            v4 == (*self is V4),
    {
        match self {
            IpAddress::V4(_) => true,
            IpAddress::V6(_) => false,
        }
    }

    /// Whether both addresses belong to one family and have the same octets.
    pub fn same(&self, other: &IpAddress) -> (same: bool)
        ensures
            same == (*self == *other),
    {
        match (self, other) {
            (IpAddress::V4(a), IpAddress::V4(b)) => same_v4(a, b),
            (IpAddress::V6(a), IpAddress::V6(b)) => same_v6(a, b),
            _ => false,
        }
    }
}

impl SocketAddress {
    /// The address `ip` at `port`.
    pub fn new(ip: IpAddress, port: u16) -> (addr: SocketAddress)
        ensures
            addr.ip == ip,
            addr.port == port,
    {
        SocketAddress { ip, port }
    }

    /// Whether the address is an IPv4 one.
    pub fn is_v4(&self) -> (v4: bool)
        ensures
            v4 == (self.ip is V4),
    {
        self.ip.is_v4()
    }
}

} // verus!
