//! IP addresses as the library handles them.

use vstd::prelude::*;

verus! {

/// An IP address, held as the big-endian integer of its octets, the value that std's
/// `u32::from(Ipv4Addr)` and `u128::from(Ipv6Addr)` give.
#[derive(Debug, Clone, Copy, PartialEq, Eq, Structural)]
pub enum IpAddress {
    V4(u32),
    V6(u128),
}

impl IpAddress {
    /// Whether this is an IPv4 address.
    pub fn is_ipv4(&self) -> (r: bool)
        ensures
            r == (self is V4),
    {
        match self {
            IpAddress::V4(_) => true,
            IpAddress::V6(_) => false,
        }
    }

    /// Whether this is a multicast address (224.0.0.0/4 for IPv4, ff00::/8 for IPv6),
    /// as std's `is_multicast` decides it.
    pub fn is_multicast(&self) -> (r: bool)
        ensures
            r == (match *self {
                IpAddress::V4(a) => a / 0x1000_0000 == 0xE,
                IpAddress::V6(a) => a / 0x0100_0000_0000_0000_0000_0000_0000_0000 == 0xFF,
            }),
    {
        match self {
            IpAddress::V4(a) => *a / 0x1000_0000 == 0xE,
            IpAddress::V6(a) => *a / 0x0100_0000_0000_0000_0000_0000_0000_0000 == 0xFF,
        }
    }
}

} // verus!
