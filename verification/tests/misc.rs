use async_dpdk::memory::{check_alloc, check_size};
use async_dpdk::sock::{PortTable, SockState, SockTable};
use async_dpdk::errno::Error;
use async_dpdk::eth_dev::{queue_count, rx_pool_size, tx_offloads};
use async_dpdk::eal::check_not_entered;
use async_dpdk::eth_dev::check_socket_id;
use async_dpdk::ether::{EthPacket, EtherAddr};
use async_dpdk::inet::InetAddr;
use async_dpdk::lcore::{role_from_raw, Role};
use async_dpdk::mbuf::{seg_len, MbufMeta};
use async_dpdk::mempool::{pool_is_empty, pool_is_full, PoolRegistry};

#[test]
fn ethernet_packet_new_holds_one_empty_fragment() {
    let src = EtherAddr { addr_bytes: [1, 2, 3, 4, 5, 6] };
    let dst = EtherAddr { addr_bytes: [0xa, 0xb, 0xc, 0xd, 0xe, 0xf] };
    let p = EthPacket::new(src, dst, 0x0800);
    assert_eq!(p.frag_count(), 1);
    assert_eq!(p.frag(0), &[] as &[u8]);
    assert_eq!(p.into_mbuf(2048), vec![Vec::<u8>::new()]);
}

#[test]
fn lcore_roles() {
    assert_eq!(role_from_raw(0), Role::Eal);
    assert_eq!(role_from_raw(1), Role::Off);
    assert_eq!(role_from_raw(2), Role::Service);
    assert_eq!(role_from_raw(3), Role::User);
}

#[test]
fn mbuf_arithmetic() {
    let m = MbufMeta { nb_segs: 3, pkt_len: 15, data_len: 5 };
    assert!(!m.is_contiguous());
    assert_eq!(m.after_pop(), (2, 10));
    let one = MbufMeta { nb_segs: 1, pkt_len: 5, data_len: 5 };
    assert!(one.is_contiguous());
    assert_eq!(one.after_pop(), (0, 0));
    assert_eq!(MbufMeta { nb_segs: 0, pkt_len: 2, data_len: 5 }.after_pop(), (0, 0));
    assert_eq!(seg_len(10), Ok(10));
    assert_eq!(seg_len(65535), Ok(65535));
    assert_eq!(seg_len(65536), Err(Error::InvalidArg));
}

#[test]
fn mempool_counters() {
    assert!(pool_is_empty(0));
    assert!(!pool_is_empty(1));
    assert!(pool_is_full(64, 64));
    assert!(!pool_is_full(63, 64));
    let mut reg: PoolRegistry<&str> = PoolRegistry::new();
    assert_eq!(reg.lookup(0x1000), Err(Error::NotExist));
    reg.register(0x1000, "mempool");
    assert_eq!(reg.lookup(0x1000), Ok(&"mempool"));
    reg.register(0x1000, "other");
    assert_eq!(reg.lookup(0x1000), Ok(&"other"));
}

#[test]
fn eth_dev_sizes() {
    assert_eq!(rx_pool_size(1, 1024, 1024), 8192);
    assert_eq!(rx_pool_size(3, 1024, 1024), 8192);
    assert_eq!(rx_pool_size(5, 1024, 1024), 5 * 2080);
    assert_eq!(rx_pool_size(u32::MAX, 1024, 1024), u32::MAX);
    assert_eq!(rx_pool_size(0, 0, 0), 8192);
    assert_eq!(tx_offloads(0x0001_0000), 0x0001_0000);
    assert_eq!(tx_offloads(0xffff_ffff_fffe_ffff), 0);
    assert_eq!(tx_offloads(0x0003_0000), 0x0001_0000);
    assert_eq!(queue_count(4, 1), 1);
    assert_eq!(queue_count(2, 8), 2);
}

#[test]
fn inet_addresses() {
    assert!(InetAddr::V4(0).is_unspecified());
    assert!(InetAddr::V6(0).is_unspecified());
    assert!(!InetAddr::V4(1).is_unspecified());
    assert!(InetAddr::V4(0x7f00_0001).is_loopback());
    assert!(InetAddr::V4(0x7fff_ffff).is_loopback());
    assert!(!InetAddr::V4(0x8000_0001).is_loopback());
    assert!(InetAddr::V6(1).is_loopback());
    assert!(!InetAddr::V6(2).is_loopback());
}

#[test]
fn ethernet_packet_from_and_into_mbuf() {
    let segs = vec![vec![1u8, 2], vec![], vec![3u8]];
    let p = EthPacket::from_mbuf(&segs);
    assert_eq!(p.frag_count(), 3);
    assert_eq!(p.frag(1), &[] as &[u8]);
    assert_eq!(p.into_mbuf(3), vec![vec![1, 2, 3]]);
    assert_eq!(p.into_mbuf(2), vec![vec![1, 2], vec![3]]);
}

#[test]
fn setup_checks() {
    assert_eq!(check_socket_id(-1), Err(Error::InvalidArg));
    assert_eq!(check_socket_id(0), Ok(0));
    assert_eq!(check_socket_id(3), Ok(3));
    assert_eq!(check_not_entered(true), Err(Error::Already));
    assert_eq!(check_not_entered(false), Ok(()));
}

#[test]
fn allocation_checks() {
    assert_eq!(check_size(0), Err(Error::InvalidArg));
    assert_eq!(check_size(16), Ok(()));
    assert_eq!(check_alloc(true), Err(Error::NoMem));
    assert_eq!(check_alloc(false), Ok(()));
}

#[test]
fn default_tables() {
    let socks = SockTable::default();
    assert_eq!(socks.free_count(), 1024);
    assert_eq!(socks.state(0), SockState::Unused);
    let ports = PortTable::default();
    assert_eq!(ports.next_port(), 0);
    assert_eq!(ports.lookup(1), None);
}
