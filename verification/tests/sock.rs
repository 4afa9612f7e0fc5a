use async_dpdk::errno::Error;
use async_dpdk::inet::InetAddr;
use async_dpdk::sock::{bind_fd, bind_port, free_fd, free_port, PortTable, SockState, SockTable};

#[test]
fn auto_ports_count_up_and_skip_bound_ones() {
    let mut ports = PortTable::new();
    assert_eq!(bind_port(&mut ports, 0, 10), Ok(1));
    assert_eq!(bind_port(&mut ports, 3, 11), Ok(3));
    assert_eq!(bind_port(&mut ports, 0, 12), Ok(2));
    assert_eq!(bind_port(&mut ports, 0, 13), Ok(4));
    assert_eq!(ports.next_port(), 4);
    assert_eq!(ports.lookup(3), Some(11));
}

#[test]
fn bound_port_is_refused() {
    let mut ports = PortTable::new();
    assert_eq!(bind_port(&mut ports, 1234, 1), Ok(1234));
    assert_eq!(bind_port(&mut ports, 1234, 2), Err(Error::InvalidArg));
    free_port(&mut ports, 1234);
    assert_eq!(ports.lookup(1234), None);
    assert_eq!(bind_port(&mut ports, 1234, 2), Ok(1234));
}

#[test]
fn auto_port_wraps_round() {
    let mut ports = PortTable::new();
    for p in 1..=65533u16 {
        assert_eq!(bind_port(&mut ports, 0, 0), Ok(p));
    }
    free_port(&mut ports, 1);
    free_port(&mut ports, 2);
    assert_eq!(bind_port(&mut ports, 65535, 0), Ok(65535));
    assert_eq!(bind_port(&mut ports, 0, 0), Ok(65534));
    assert_eq!(bind_port(&mut ports, 0, 0), Ok(1));
}

#[test]
fn full_port_table_is_refused() {
    let mut ports = PortTable::new();
    for p in 1..=65534u16 {
        assert_eq!(bind_port(&mut ports, p, 0), Ok(p));
    }
    assert_eq!(bind_port(&mut ports, 65535, 0), Err(Error::NoBuf));
    assert_eq!(bind_port(&mut ports, 0, 0), Err(Error::NoBuf));
}

#[test]
fn descriptors_are_handed_out_and_back() {
    let mut socks = SockTable::new();
    let mut ports = PortTable::new();
    assert_eq!(socks.free_count(), 1024);
    let ip = InetAddr::V4(0x0a02_0300);
    assert_eq!(bind_fd(&mut socks, &mut ports, ip, 1234), Ok(1023));
    assert_eq!(socks.state(1023), SockState::InUse { ip, port: 1234, op: 0 });
    assert_eq!(bind_fd(&mut socks, &mut ports, ip, 0), Ok(1022));
    assert_eq!(socks.state(1022), SockState::InUse { ip, port: 1, op: 0 });
    assert_eq!(free_fd(&mut socks, &mut ports, 1023), Ok(()));
    assert_eq!(socks.state(1023), SockState::Unused);
    assert_eq!(ports.lookup(1234), None);
    assert_eq!(bind_fd(&mut socks, &mut ports, ip, 1234), Ok(1023));
}

#[test]
fn descriptor_errors() {
    let mut socks = SockTable::new();
    let mut ports = PortTable::new();
    assert_eq!(free_fd(&mut socks, &mut ports, -1), Err(Error::BadFd));
    let ip = InetAddr::V6(1);
    assert_eq!(bind_fd(&mut socks, &mut ports, ip, 80), Ok(1023));
    // the port is taken: the descriptor popped is not given back
    assert_eq!(bind_fd(&mut socks, &mut ports, ip, 80), Err(Error::InvalidArg));
    assert_eq!(socks.free_count(), 1022);
}

#[test]
fn descriptors_run_out() {
    let mut socks = SockTable::new();
    let mut ports = PortTable::new();
    let ip = InetAddr::V4(1);
    for i in 0..1024 {
        assert_eq!(bind_fd(&mut socks, &mut ports, ip, 0), Ok(1023 - i));
    }
    assert_eq!(bind_fd(&mut socks, &mut ports, ip, 0), Err(Error::NoBuf));
}
