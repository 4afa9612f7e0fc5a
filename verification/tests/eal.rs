use async_dpdk::eal::{decimal, hex, signed_decimal, Config, IovaMode, LogLevel, Vdev};
use async_dpdk::errno::Error;
use async_dpdk::inet::InetAddr;

fn args(c: &Config) -> Vec<String> {
    c.arguments().iter().map(|a| String::from_utf8(a.clone()).unwrap()).collect()
}

#[test]
fn decimal_text() {
    assert_eq!(decimal(0), b"0".to_vec());
    assert_eq!(decimal(63), b"63".to_vec());
    assert_eq!(decimal(u64::MAX), b"18446744073709551615".to_vec());
    assert_eq!(signed_decimal(-7), b"-7".to_vec());
    assert_eq!(signed_decimal(i32::MIN), b"-2147483648".to_vec());
    assert_eq!(signed_decimal(42), b"42".to_vec());
}

#[test]
fn hex_text() {
    assert_eq!(hex(0), b"0".to_vec());
    assert_eq!(hex(0x3f), b"3f".to_vec());
    assert_eq!(hex(10), b"a".to_vec());
    assert_eq!(hex(0x1_0000), b"10000".to_vec());
    assert_eq!(hex(u64::MAX), b"ffffffffffffffff".to_vec());
}

#[test]
fn builds_arguments() {
    let c = Config::new("app")
        .coremask(0x3f)
        .iova_mode(IovaMode::VA)
        .no_pci(true)
        .no_pci(false)
        .no_hugepages(true)
        .memory_mb(512)
        .vdev(Vdev::Null(0))
        .vdev(Vdev::Ring(-1))
        .vdev(Vdev::Pcap(12))
        .log_level(LogLevel::Debug);
    assert_eq!(
        args(&c),
        vec![
            "app", "-c", "3f", "--iova-mode", "va", "--no-pci", "--no-huge", "-m", "512",
            "--vdev", "net_null0", "--vdev", "net_ring-1", "--vdev", "net_pcap12",
            "--log-level", "8",
        ]
    );
    assert_eq!(c.argc(), Ok(17));
}

#[test]
fn string_arguments() {
    let c = Config::new("app")
        .corelist("0-3").unwrap()
        .coremap("(0-3)@0").unwrap()
        .pci_blacklist("0000:00:01.0").unwrap()
        .pci_whitelist("0000:00:02.0").unwrap()
        .iova_mode(IovaMode::PA);
    assert_eq!(
        args(&c),
        vec!["app", "-l", "0-3", "--lcores", "(0-3)@0", "-b", "0000:00:01.0", "-w", "0000:00:02.0", "--iova-mode", "pa"]
    );
    assert!(matches!(Config::new("app").corelist(""), Err(Error::InvalidArg)));
    assert!(matches!(Config::new("app").coremap("a\0b"), Err(Error::InvalidArg)));
    assert!(matches!(Config::new("app").pci_blacklist(""), Err(Error::InvalidArg)));
    assert!(matches!(Config::new("app").pci_whitelist("\0"), Err(Error::InvalidArg)));
}

#[test]
fn queue_limit_and_addresses() {
    assert_eq!(Config::new("app").queue_limit(), Ok(65535));
    assert_eq!(Config::new("app").max_queues(4).queue_limit(), Ok(4));
    assert_eq!(Config::new("app").max_queues(0).queue_limit(), Err(Error::InvalidArg));
    let c = Config::new("app")
        .device_probe(vec![InetAddr::V4(1)])
        .device_probe(vec![InetAddr::V4(2), InetAddr::V6(3)]);
    assert_eq!(c.addresses(), &vec![InetAddr::V4(1), InetAddr::V4(2), InetAddr::V6(3)]);
}

#[test]
fn log_levels() {
    assert_eq!(LogLevel::Emergency.level(), 1);
    assert_eq!(LogLevel::Warn.level(), 5);
    assert_eq!(LogLevel::Debug.level(), 8);
}
