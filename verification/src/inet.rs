//! Internet addresses as plain numbers, the way the socket and device tables
//! store and compare them.

use vstd::prelude::*;

verus! {

/// An IP address. An IPv4 address is its 32-bit number, an IPv6 address its
/// 128-bit number, both in network (big-endian) reading order.
#[derive(Clone, Copy, Debug, PartialEq, Eq, Structural)]
pub enum InetAddr {
    V4(u32),
    V6(u128),
}

impl InetAddr {
    /// The address of "any interface": `0.0.0.0` or `::`.
    pub open spec fn spec_is_unspecified(&self) -> bool {
        match *self {
            InetAddr::V4(a) => a == 0,
            InetAddr::V6(a) => a == 0,
        }
    }

    /// A loopback address: `127.0.0.0/8` or `::1`.
    pub open spec fn spec_is_loopback(&self) -> bool {
        match *self {
            InetAddr::V4(a) => a / 0x0100_0000 == 127,
            InetAddr::V6(a) => a == 1,
        }
    }

    /// Whether this is the unspecified address.
    pub fn is_unspecified(&self) -> (r: bool)
        ensures
            r == self.spec_is_unspecified(),
    {
        match *self {
            InetAddr::V4(a) => a == 0,
            InetAddr::V6(a) => a == 0,
        }
    }

    /// Whether this is a loopback address.
    pub fn is_loopback(&self) -> (r: bool)
        ensures
            r == self.spec_is_loopback(),
    {
        match *self {
            InetAddr::V4(a) => a / 0x0100_0000 == 127,
            InetAddr::V6(a) => a == 1,
        }
    }
}

} // verus!
