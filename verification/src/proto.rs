//! Protocol numbers: the packet-type bits DPDK keeps in an mbuf, header
//! lengths, and the protocol ids read from packet headers.

use vstd::prelude::*;

verus! {

/// UDP protocol id in an IP header.
pub const IP_NEXT_PROTO_UDP: u8 = 0x11;

/// Ethernet header length.
pub const ETHER_HDR_LEN: u16 = 14;

/// Packet-type bit of an Ethernet frame.
pub const PTYPE_L2_ETHER: u32 = 0x0000_0001;

/// Packet-type value of an unknown protocol.
pub const PTYPE_UNKNOWN: u32 = 0x0000_0000;

/// Packet-type bits of IPv4.
pub const PTYPE_L3_IPV4: u32 = 0x0000_0010;

/// Packet-type bits of IPv6.
pub const PTYPE_L3_IPV6: u32 = 0x0000_0040;

/// Packet-type bits of TCP.
pub const PTYPE_L4_TCP: u32 = 0x0000_0100;

/// Packet-type bits of UDP.
pub const PTYPE_L4_UDP: u32 = 0x0000_0200;

/// Mask of the L3 packet-type bits.
pub const PTYPE_L3_MASK: u32 = 0x0000_00f0;

/// Mask of the L4 packet-type bits.
pub const PTYPE_L4_MASK: u32 = 0x0000_0f00;

/// L3 (network layer) protocol.
#[derive(Clone, Copy, Debug, PartialEq, Eq, Structural)]
pub enum L3Protocol {
    /// Unknown L3 protocol.
    Unknown,
    /// IPv4.
    Ipv4,
    /// IPv6.
    Ipv6,
}

/// L4 (transport layer) protocol.
#[derive(Clone, Copy, Debug, PartialEq, Eq, Structural)]
pub enum L4Protocol {
    /// Unknown L4 protocol.
    Unknown,
    /// UDP.
    UDP,
    /// TCP.
    TCP,
}

impl L3Protocol {
    /// Header length of the protocol.
    pub open spec fn spec_length(self) -> u16 {
        match self {
            L3Protocol::Ipv4 => 20,
            L3Protocol::Ipv6 => 40,
            L3Protocol::Unknown => 0,
        }
    }

    /// Packet-type bits of the protocol.
    pub open spec fn spec_ptype(self) -> u32 {
        match self {
            L3Protocol::Unknown => PTYPE_UNKNOWN,
            L3Protocol::Ipv4 => PTYPE_L3_IPV4,
            L3Protocol::Ipv6 => PTYPE_L3_IPV6,
        }
    }

    /// Whether `num` is the packet-type value of a known L3 protocol.
    pub open spec fn is_known_ptype(num: u32) -> bool {
        num == PTYPE_UNKNOWN || num == PTYPE_L3_IPV4 || num == PTYPE_L3_IPV6
    }

    /// The protocol whose packet-type value is `num`.
    pub open spec fn spec_from_ptype(num: u32) -> L3Protocol {
        if num == PTYPE_L3_IPV4 {
            L3Protocol::Ipv4
        } else if num == PTYPE_L3_IPV6 {
            L3Protocol::Ipv6
        } else {
            L3Protocol::Unknown
        }
    }

    /// Header length: 20 for IPv4, 40 for IPv6, 0 when unknown.
    pub fn length(&self) -> (n: u16)
        ensures
            n == self.spec_length(),
    {
        match *self {
            L3Protocol::Ipv4 => 20,
            L3Protocol::Ipv6 => 40,
            L3Protocol::Unknown => 0,
        }
    }

    /// Packet-type bits as DPDK stores them in an mbuf.
    pub fn ptype(&self) -> (n: u32)
        ensures
            n == self.spec_ptype(),
    {
        match *self {
            L3Protocol::Unknown => PTYPE_UNKNOWN,
            L3Protocol::Ipv4 => PTYPE_L3_IPV4,
            L3Protocol::Ipv6 => PTYPE_L3_IPV6,
        }
    }

    /// The protocol with packet-type value `num`, which must be one of the
    /// three known values.
    pub fn from_ptype(num: u32) -> (p: L3Protocol)
        requires
            L3Protocol::is_known_ptype(num),
        ensures
            p == L3Protocol::spec_from_ptype(num),
            p.spec_ptype() == num,
    {
        if num == PTYPE_L3_IPV4 {
            L3Protocol::Ipv4
        } else if num == PTYPE_L3_IPV6 {
            L3Protocol::Ipv6
        } else {
            L3Protocol::Unknown
        }
    }
}

impl L4Protocol {
    /// Header length of the protocol.
    pub open spec fn spec_length(self) -> u16 {
        match self {
            L4Protocol::UDP => 8,
            L4Protocol::TCP => 20,
            L4Protocol::Unknown => 0,
        }
    }

    /// Packet-type bits of the protocol.
    pub open spec fn spec_ptype(self) -> u32 {
        match self {
            L4Protocol::Unknown => PTYPE_UNKNOWN,
            L4Protocol::UDP => PTYPE_L4_UDP,
            L4Protocol::TCP => PTYPE_L4_TCP,
        }
    }

    /// Whether `num` is the packet-type value of a known L4 protocol.
    pub open spec fn is_known_ptype(num: u32) -> bool {
        num == PTYPE_UNKNOWN || num == PTYPE_L4_UDP || num == PTYPE_L4_TCP
    }

    /// The protocol whose packet-type value is `num`.
    pub open spec fn spec_from_ptype(num: u32) -> L4Protocol {
        if num == PTYPE_L4_UDP {
            L4Protocol::UDP
        } else if num == PTYPE_L4_TCP {
            L4Protocol::TCP
        } else {
            L4Protocol::Unknown
        }
    }

    /// Header length: 8 for UDP, 20 for TCP, 0 when unknown.
    pub fn length(&self) -> (n: u16)
        ensures
            n == self.spec_length(),
    {
        match *self {
            L4Protocol::UDP => 8,
            L4Protocol::TCP => 20,
            L4Protocol::Unknown => 0,
        }
    }

    /// Packet-type bits as DPDK stores them in an mbuf.
    pub fn ptype(&self) -> (n: u32)
        ensures
            n == self.spec_ptype(),
    {
        match *self {
            L4Protocol::Unknown => PTYPE_UNKNOWN,
            L4Protocol::UDP => PTYPE_L4_UDP,
            L4Protocol::TCP => PTYPE_L4_TCP,
        }
    }

    /// The protocol with packet-type value `num`, which must be one of the
    /// three known values.
    pub fn from_ptype(num: u32) -> (p: L4Protocol)
        requires
            L4Protocol::is_known_ptype(num),
        ensures
            p == L4Protocol::spec_from_ptype(num),
            p.spec_ptype() == num,
    {
        if num == PTYPE_L4_UDP {
            L4Protocol::UDP
        } else if num == PTYPE_L4_TCP {
            L4Protocol::TCP
        } else {
            L4Protocol::Unknown
        }
    }
}

/// Reading a protocol back from its packet-type bits gives the protocol.
pub proof fn lemma_ptype_round_trip(l3: L3Protocol, l4: L4Protocol)
    ensures
        L3Protocol::is_known_ptype(l3.spec_ptype()),
        L3Protocol::spec_from_ptype(l3.spec_ptype()) == l3,
        L4Protocol::is_known_ptype(l4.spec_ptype()),
        L4Protocol::spec_from_ptype(l4.spec_ptype()) == l4,
{
}

} // verus!
