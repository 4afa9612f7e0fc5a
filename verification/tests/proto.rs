use async_dpdk::proto::{L3Protocol, L4Protocol, PTYPE_L3_IPV4, PTYPE_L3_IPV6, PTYPE_L4_TCP, PTYPE_L4_UDP};

#[test]
fn header_lengths() {
    assert_eq!(L3Protocol::Ipv4.length(), 20);
    assert_eq!(L3Protocol::Ipv6.length(), 40);
    assert_eq!(L3Protocol::Unknown.length(), 0);
    assert_eq!(L4Protocol::UDP.length(), 8);
    assert_eq!(L4Protocol::TCP.length(), 20);
    assert_eq!(L4Protocol::Unknown.length(), 0);
}

#[test]
fn packet_type_numbers() {
    assert_eq!(L3Protocol::Ipv4.ptype(), 0x10);
    assert_eq!(L3Protocol::Ipv6.ptype(), 0x40);
    assert_eq!(L4Protocol::UDP.ptype(), 0x200);
    assert_eq!(L4Protocol::TCP.ptype(), 0x100);
    assert_eq!(L3Protocol::from_ptype(PTYPE_L3_IPV4), L3Protocol::Ipv4);
    assert_eq!(L3Protocol::from_ptype(PTYPE_L3_IPV6), L3Protocol::Ipv6);
    assert_eq!(L3Protocol::from_ptype(0), L3Protocol::Unknown);
    assert_eq!(L4Protocol::from_ptype(PTYPE_L4_UDP), L4Protocol::UDP);
    assert_eq!(L4Protocol::from_ptype(PTYPE_L4_TCP), L4Protocol::TCP);
    assert_eq!(L4Protocol::from_ptype(0), L4Protocol::Unknown);
}
