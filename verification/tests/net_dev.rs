use async_dpdk::errno::Error;
use async_dpdk::inet::InetAddr;
use async_dpdk::net_dev::{
    dedup, device_close, device_probe, device_start, device_start_all, device_stop,
    device_stop_all, find_dev_by_ip, DeviceTable, InetDevice,
};
use std::cell::RefCell;

fn ip(last: u8) -> InetAddr {
    InetAddr::V4(0x0a02_0300 | last as u32)
}

fn probed(n: u8) -> DeviceTable {
    let mut table = DeviceTable::new();
    let addrs: Vec<InetAddr> = (0..n).map(ip).collect();
    assert_eq!(device_probe(&mut table, addrs, n as u32, |_| Ok(())), Ok(()));
    table
}

#[test]
fn dedup_drops_every_repeat() {
    let a = vec![ip(1), ip(1), ip(2), ip(1), ip(1), ip(3), ip(2)];
    assert_eq!(dedup(&a), vec![ip(1), ip(2), ip(3)]);
    assert_eq!(dedup(&vec![]), vec![]);
    let d = dedup(&a);
    assert_eq!(dedup(&d), d);
}

#[test]
fn probe_drops_repeats_that_are_not_neighbours() {
    let mut table = DeviceTable::new();
    assert_eq!(device_probe(&mut table, vec![ip(1), ip(2), ip(1)], 2, |_| Ok(())), Ok(()));
    assert_eq!(table.len(), 2);
    assert_eq!(table.get(0), InetDevice { ip: ip(1), port_id: 0, running: false });
    assert_eq!(table.get(1), InetDevice { ip: ip(2), port_id: 1, running: false });
    let mut table = DeviceTable::new();
    assert_eq!(device_probe(&mut table, vec![ip(1), ip(2), ip(1)], 3, |_| Ok(())), Ok(()));
    assert_eq!(table.len(), 2);
}

#[test]
fn probe_assigns_ports_in_order() {
    let mut table = DeviceTable::new();
    let addrs = vec![ip(0), ip(0), ip(1)];
    let opened = RefCell::new(vec![]);
    assert_eq!(
        device_probe(&mut table, addrs, 2, |p| {
            opened.borrow_mut().push(p);
            Ok(())
        }),
        Ok(())
    );
    assert_eq!(opened.into_inner(), vec![0, 1]);
    assert_eq!(table.len(), 2);
    assert_eq!(table.get(1), InetDevice { ip: ip(1), port_id: 1, running: false });
    assert_eq!(device_probe(&mut table, vec![ip(5)], 4, |_| Ok(())), Err(Error::Already));
}

#[test]
fn probe_errors() {
    let mut table = DeviceTable::new();
    assert_eq!(device_probe(&mut table, vec![ip(0), ip(1)], 1, |_| Ok(())), Err(Error::InvalidArg));
    assert_eq!(table.len(), 0);
    assert_eq!(
        device_probe(&mut table, vec![ip(0), ip(1), ip(2)], 3, |p| if p == 1 {
            Err(Error::NoDev)
        } else {
            Ok(())
        }),
        Err(Error::NoDev)
    );
    assert_eq!(table.len(), 1);
}

#[test]
fn start_and_stop_all() {
    let mut table = probed(3);
    assert_eq!(device_start_all(&mut table, |_| Ok(())), Ok(()));
    assert!((0..3).all(|i| table.get(i).running));
    assert_eq!(device_stop_all(&mut table, |i| if i == 2 { Err(Error::Busy) } else { Ok(()) }), Err(Error::Busy));
    assert!(!table.get(0).running && !table.get(1).running && table.get(2).running);
    assert_eq!(device_close(&mut table), Ok(()));
    assert_eq!(table.len(), 0);
}

#[test]
fn start_and_stop_one() {
    let mut table = probed(2);
    assert_eq!(device_start(&mut table, ip(1), |i| {
        assert_eq!(i, 1);
        Ok(())
    }), Ok(()));
    assert!(table.get(1).running && !table.get(0).running);
    assert_eq!(device_start(&mut table, ip(9), |_| Ok(())), Err(Error::NoDev));
    assert_eq!(device_stop(&mut table, ip(1), |_| Err(Error::Busy)), Err(Error::Busy));
    assert!(table.get(1).running);
    assert_eq!(device_stop(&mut table, ip(1), |_| Ok(())), Ok(()));
    assert!(!table.get(1).running);
}

#[test]
fn find_device_by_ip() {
    let mut table = probed(3);
    assert_eq!(find_dev_by_ip(&table, ip(1)), Err(Error::NoDev));
    assert_eq!(find_dev_by_ip(&table, ip(7)), Err(Error::InvalidArg));
    assert_eq!(find_dev_by_ip(&table, InetAddr::V4(0)), Err(Error::InvalidArg));
    device_start(&mut table, ip(2), |_| Ok(())).unwrap();
    assert_eq!(find_dev_by_ip(&table, ip(2)), Ok(2));
    assert_eq!(find_dev_by_ip(&table, InetAddr::V4(0)), Ok(2));
    assert_eq!(find_dev_by_ip(&table, InetAddr::V4(0x7f00_0001)), Ok(2));
    assert_eq!(find_dev_by_ip(&table, InetAddr::V6(1)), Ok(2));
    assert_eq!(find_dev_by_ip(&table, ip(0)), Err(Error::NoDev));
}
