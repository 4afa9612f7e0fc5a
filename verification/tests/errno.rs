use async_dpdk::errno::Error;

#[test]
fn from_ret_maps_negated_codes() {
    assert_eq!(Error::from_ret(0), Ok(()));
    assert_eq!(Error::from_ret(5), Ok(()));
    assert_eq!(Error::from_ret(-22), Err(Error::InvalidArg));
    assert_eq!(Error::from_ret(-12), Err(Error::NoMem));
    assert_eq!(Error::from_ret(-1005), Err(Error::NotExist));
    assert_eq!(Error::from_ret(-999), Err(Error::Unknown));
    assert_eq!(Error::from_ret(i32::MIN), Err(Error::Unknown));
}

#[test]
fn codes_round_trip() {
    let all = [
        Error::NoPerm, Error::NoEntry, Error::NoProc, Error::Interrupted, Error::IoErr,
        Error::NotConfigured, Error::TooBig, Error::NoExec, Error::BadFd, Error::TempUnavail,
        Error::NoMem, Error::NoAccess, Error::BadAddress, Error::Busy, Error::Exists,
        Error::CrossDev, Error::NoDev, Error::InvalidArg, Error::NoSpace, Error::BrokenPipe,
        Error::OutOfRange, Error::Overflow, Error::NotSupported, Error::Already, Error::NoBuf,
        Error::Proto, Error::Secondary, Error::NoConfig, Error::Poisoned, Error::NotStart,
        Error::NotExist, Error::Unknown,
    ];
    for e in all {
        assert!(e.code() > 0);
        assert_eq!(Error::from_code(e.code()), e);
        assert_eq!(Error::from_ret(-e.code()), Err(e));
    }
}

#[test]
fn codes_match_errno_values() {
    assert_eq!(Error::NoPerm.code(), 1);
    assert_eq!(Error::TempUnavail.code(), 11);
    assert_eq!(Error::InvalidArg.code(), 22);
    assert_eq!(Error::NotSupported.code(), 95);
    assert_eq!(Error::Already.code(), 114);
    assert_eq!(Error::NoBuf.code(), 105);
    assert_eq!(Error::Proto.code(), 71);
    assert_eq!(Error::Secondary.code(), 1001);
    assert_eq!(Error::Unknown.code(), 1006);
    assert_eq!(Error::from_code(10), Error::Unknown);
    assert_eq!(Error::from_code(2000), Error::Unknown);
}

#[test]
fn messages() {
    assert_eq!(Error::NoPerm.message(), "Operation not permitted");
    assert_eq!(Error::NoBuf.message(), "No buffer space available");
    assert_eq!(Error::Poisoned.message(), "Lock poisoned");
    assert_eq!(Error::Unknown.message(), "Unknown error");
}
