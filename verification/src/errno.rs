//! Error codes shared with DPDK: the mapping between numeric codes and the
//! library's `Error` values.

use vstd::prelude::*;

verus! {

/// Errors from DPDK and from the library itself.
#[derive(Clone, Copy, Debug, PartialEq, Eq, Structural)]
pub enum Error {
    NoPerm,
    NoEntry,
    NoProc,
    Interrupted,
    IoErr,
    NotConfigured,
    TooBig,
    NoExec,
    BadFd,
    TempUnavail,
    NoMem,
    NoAccess,
    BadAddress,
    Busy,
    Exists,
    CrossDev,
    NoDev,
    InvalidArg,
    NoSpace,
    BrokenPipe,
    OutOfRange,
    Overflow,
    NotSupported,
    Already,
    NoBuf,
    Proto,
    Secondary,
    NoConfig,
    Poisoned,
    NotStart,
    NotExist,
    Unknown,
}

/// The numeric code of each error: Linux errno values, then the codes that
/// DPDK and this library define above 1000.
pub open spec fn spec_code(e: Error) -> i32 {
    match e {
        Error::NoPerm => 1,
        Error::NoEntry => 2,
        Error::NoProc => 3,
        Error::Interrupted => 4,
        Error::IoErr => 5,
        Error::NotConfigured => 6,
        Error::TooBig => 7,
        Error::NoExec => 8,
        Error::BadFd => 9,
        Error::TempUnavail => 11,
        Error::NoMem => 12,
        Error::NoAccess => 13,
        Error::BadAddress => 14,
        Error::Busy => 16,
        Error::Exists => 17,
        Error::CrossDev => 18,
        Error::NoDev => 19,
        Error::InvalidArg => 22,
        Error::NoSpace => 28,
        Error::BrokenPipe => 32,
        Error::OutOfRange => 34,
        Error::Overflow => 75,
        Error::NotSupported => 95,
        Error::Already => 114,
        Error::NoBuf => 105,
        Error::Proto => 71,
        Error::Secondary => 1001,
        Error::NoConfig => 1002,
        Error::Poisoned => 1003,
        Error::NotStart => 1004,
        Error::NotExist => 1005,
        Error::Unknown => 1006,
    }
}

/// The error that a positive code stands for; codes that name no error are
/// `Unknown`.
pub open spec fn spec_from_code(code: i32) -> Error {
    if code == 1 { Error::NoPerm }
    else if code == 2 { Error::NoEntry }
    else if code == 3 { Error::NoProc }
    else if code == 4 { Error::Interrupted }
    else if code == 5 { Error::IoErr }
    else if code == 6 { Error::NotConfigured }
    else if code == 7 { Error::TooBig }
    else if code == 8 { Error::NoExec }
    else if code == 9 { Error::BadFd }
    else if code == 11 { Error::TempUnavail }
    else if code == 12 { Error::NoMem }
    else if code == 13 { Error::NoAccess }
    else if code == 14 { Error::BadAddress }
    else if code == 16 { Error::Busy }
    else if code == 17 { Error::Exists }
    else if code == 18 { Error::CrossDev }
    else if code == 19 { Error::NoDev }
    else if code == 22 { Error::InvalidArg }
    else if code == 28 { Error::NoSpace }
    else if code == 32 { Error::BrokenPipe }
    else if code == 34 { Error::OutOfRange }
    else if code == 75 { Error::Overflow }
    else if code == 95 { Error::NotSupported }
    else if code == 114 { Error::Already }
    else if code == 105 { Error::NoBuf }
    else if code == 71 { Error::Proto }
    else if code == 1001 { Error::Secondary }
    else if code == 1002 { Error::NoConfig }
    else if code == 1003 { Error::Poisoned }
    else if code == 1004 { Error::NotStart }
    else if code == 1005 { Error::NotExist }
    else { Error::Unknown }
}

/// What a DPDK return value means: zero and positive values are success, a
/// negative value `-code` is the error of `code` (the most negative value
/// saturates to `i32::MAX`, which names no error).
pub open spec fn spec_from_ret(ret: i32) -> core::result::Result<(), Error> {
    let code: int = if ret == i32::MIN { i32::MAX as int } else { -ret };
    if code <= 0 {
        Ok(())
    } else {
        Err(spec_from_code(code as i32))
    }
}

/// The human-readable description of each error.
pub open spec fn spec_message(e: Error) -> Seq<char> {
    match e {
        Error::NoPerm => "Operation not permitted"@,
        Error::NoEntry => "No such file or directory"@,
        Error::NoProc => "No such process"@,
        Error::Interrupted => "Interrupted system call"@,
        Error::IoErr => "Input/output error"@,
        Error::NotConfigured => "Device not configured"@,
        Error::TooBig => "Argument list too long"@,
        Error::NoExec => "Exec format error"@,
        Error::BadFd => "Bad fd"@,
        Error::TempUnavail => "Resource temporarily unavailable"@,
        Error::NoMem => "Cannot allocate memory"@,
        Error::NoAccess => "Permission denied"@,
        Error::BadAddress => "Bad address"@,
        Error::Busy => "Device or resource busy"@,
        Error::Exists => "File exists"@,
        Error::CrossDev => "Invalid cross device link"@,
        Error::NoDev => "No such device"@,
        Error::InvalidArg => "Invalid argument"@,
        Error::NoSpace => "No space left on device"@,
        Error::BrokenPipe => "Broken pipe"@,
        Error::OutOfRange => "Numerical result out of range"@,
        Error::Overflow => "Value too large for defined data type"@,
        Error::NotSupported => "Not supported"@,
        Error::Already => "Operation already in progress"@,
        Error::NoBuf => "No buffer space available"@,
        Error::Proto => "Protocol error"@,
        Error::Secondary => "Operation not allowed in secondary processes"@,
        Error::NoConfig => "Missing rte_config"@,
        Error::Poisoned => "Lock poisoned"@,
        Error::NotStart => "Needed resource not started"@,
        Error::NotExist => "Not exist"@,
        Error::Unknown => "Unknown error"@,
    }
}

impl Error {
    /// The human-readable description of this error.
    pub fn message(&self) -> (m: &'static str)
        ensures
            m@ == spec_message(*self),
    {
        match self {
            Error::NoPerm => "Operation not permitted",
            Error::NoEntry => "No such file or directory",
            Error::NoProc => "No such process",
            Error::Interrupted => "Interrupted system call",
            Error::IoErr => "Input/output error",
            Error::NotConfigured => "Device not configured",
            Error::TooBig => "Argument list too long",
            Error::NoExec => "Exec format error",
            Error::BadFd => "Bad fd",
            Error::TempUnavail => "Resource temporarily unavailable",
            Error::NoMem => "Cannot allocate memory",
            Error::NoAccess => "Permission denied",
            Error::BadAddress => "Bad address",
            Error::Busy => "Device or resource busy",
            Error::Exists => "File exists",
            Error::CrossDev => "Invalid cross device link",
            Error::NoDev => "No such device",
            Error::InvalidArg => "Invalid argument",
            Error::NoSpace => "No space left on device",
            Error::BrokenPipe => "Broken pipe",
            Error::OutOfRange => "Numerical result out of range",
            Error::Overflow => "Value too large for defined data type",
            Error::NotSupported => "Not supported",
            Error::Already => "Operation already in progress",
            Error::NoBuf => "No buffer space available",
            Error::Proto => "Protocol error",
            Error::Secondary => "Operation not allowed in secondary processes",
            Error::NoConfig => "Missing rte_config",
            Error::Poisoned => "Lock poisoned",
            Error::NotStart => "Needed resource not started",
            Error::NotExist => "Not exist",
            Error::Unknown => "Unknown error",
        }
    }

    /// The numeric code of this error.
    pub fn code(&self) -> (c: i32)
        ensures
            c == spec_code(*self),
            c > 0,
    {
        match self {
            Error::NoPerm => 1,
            Error::NoEntry => 2,
            Error::NoProc => 3,
            Error::Interrupted => 4,
            Error::IoErr => 5,
            Error::NotConfigured => 6,
            Error::TooBig => 7,
            Error::NoExec => 8,
            Error::BadFd => 9,
            Error::TempUnavail => 11,
            Error::NoMem => 12,
            Error::NoAccess => 13,
            Error::BadAddress => 14,
            Error::Busy => 16,
            Error::Exists => 17,
            Error::CrossDev => 18,
            Error::NoDev => 19,
            Error::InvalidArg => 22,
            Error::NoSpace => 28,
            Error::BrokenPipe => 32,
            Error::OutOfRange => 34,
            Error::Overflow => 75,
            Error::NotSupported => 95,
            Error::Already => 114,
            Error::NoBuf => 105,
            Error::Proto => 71,
            Error::Secondary => 1001,
            Error::NoConfig => 1002,
            Error::Poisoned => 1003,
            Error::NotStart => 1004,
            Error::NotExist => 1005,
            Error::Unknown => 1006,
        }
    }

    /// Converts a positive error code into an `Error`. A non-positive code
    /// names no error and is not accepted.
    pub fn from_code(errno: i32) -> (e: Error)
        requires
            errno > 0,
        ensures
            e == spec_from_code(errno),
    {
        match errno {
            1 => Error::NoPerm,
            2 => Error::NoEntry,
            3 => Error::NoProc,
            4 => Error::Interrupted,
            5 => Error::IoErr,
            6 => Error::NotConfigured,
            7 => Error::TooBig,
            8 => Error::NoExec,
            9 => Error::BadFd,
            11 => Error::TempUnavail,
            12 => Error::NoMem,
            13 => Error::NoAccess,
            14 => Error::BadAddress,
            16 => Error::Busy,
            17 => Error::Exists,
            18 => Error::CrossDev,
            19 => Error::NoDev,
            22 => Error::InvalidArg,
            28 => Error::NoSpace,
            32 => Error::BrokenPipe,
            34 => Error::OutOfRange,
            75 => Error::Overflow,
            95 => Error::NotSupported,
            114 => Error::Already,
            105 => Error::NoBuf,
            71 => Error::Proto,
            1001 => Error::Secondary,
            1002 => Error::NoConfig,
            1003 => Error::Poisoned,
            1004 => Error::NotStart,
            1005 => Error::NotExist,
            _ => Error::Unknown,
        }
    }

    /// Converts a DPDK return value into a result: non-negative values are
    /// success, `-code` is the error of `code`.
    pub fn from_ret(errno: i32) -> (r: core::result::Result<(), Error>)
        ensures
            r == spec_from_ret(errno),
    {
        let code: i32 = if errno == i32::MIN { i32::MAX } else { -errno };
        if code <= 0 {
            Ok(())
        } else {
            Err(Error::from_code(code))
        }
    }
}

/// Every error survives the trip through its numeric code.
pub proof fn lemma_code_round_trip(e: Error)
    ensures
        spec_code(e) > 0,
        spec_from_code(spec_code(e)) == e,
{
}

/// A DPDK return value that is the negated code of an error is read back as
/// that error.
pub proof fn lemma_from_ret_of_negated_code(e: Error)
    ensures
        spec_from_ret(-spec_code(e) as i32) == core::result::Result::<(), Error>::Err(e),
{
}

/// Distinct errors have distinct codes.
pub proof fn lemma_code_injective(e1: Error, e2: Error)
    ensures
        spec_code(e1) == spec_code(e2) ==> e1 == e2,
{
    lemma_code_round_trip(e1);
    lemma_code_round_trip(e2);
}

/// The codes are Linux's errno values (EPERM 1, ENOENT 2, ESRCH 3, EINTR 4,
/// EIO 5, ENXIO 6, E2BIG 7, ENOEXEC 8, EBADF 9, EAGAIN 11, ENOMEM 12,
/// EACCES 13, EFAULT 14, EBUSY 16, EEXIST 17, EXDEV 18, ENODEV 19, EINVAL 22,
/// ENOSPC 28, EPIPE 32, ERANGE 34, EOVERFLOW 75, ENOTSUP 95, EALREADY 114,
/// ENOBUFS 105, EPROTO 71) and DPDK's own codes from 1001 on; each of these
/// codes is read back as its error.
pub proof fn lemma_errno_values()
    ensures
        spec_code(Error::NoPerm) == 1,
        spec_code(Error::NoEntry) == 2,
        spec_code(Error::NoProc) == 3,
        spec_code(Error::Interrupted) == 4,
        spec_code(Error::IoErr) == 5,
        spec_code(Error::NotConfigured) == 6,
        spec_code(Error::TooBig) == 7,
        spec_code(Error::NoExec) == 8,
        spec_code(Error::BadFd) == 9,
        spec_code(Error::TempUnavail) == 11,
        spec_code(Error::NoMem) == 12,
        spec_code(Error::NoAccess) == 13,
        spec_code(Error::BadAddress) == 14,
        spec_code(Error::Busy) == 16,
        spec_code(Error::Exists) == 17,
        spec_code(Error::CrossDev) == 18,
        spec_code(Error::NoDev) == 19,
        spec_code(Error::InvalidArg) == 22,
        spec_code(Error::NoSpace) == 28,
        spec_code(Error::BrokenPipe) == 32,
        spec_code(Error::OutOfRange) == 34,
        spec_code(Error::Overflow) == 75,
        spec_code(Error::NotSupported) == 95,
        spec_code(Error::Already) == 114,
        spec_code(Error::NoBuf) == 105,
        spec_code(Error::Proto) == 71,
        spec_code(Error::Secondary) == 1001,
        spec_code(Error::NoConfig) == 1002,
        spec_code(Error::Poisoned) == 1003,
        spec_code(Error::NotStart) == 1004,
        spec_code(Error::NotExist) == 1005,
        spec_code(Error::Unknown) == 1006,
        spec_from_code(1) == Error::NoPerm,
        spec_from_code(2) == Error::NoEntry,
        spec_from_code(3) == Error::NoProc,
        spec_from_code(4) == Error::Interrupted,
        spec_from_code(5) == Error::IoErr,
        spec_from_code(6) == Error::NotConfigured,
        spec_from_code(7) == Error::TooBig,
        spec_from_code(8) == Error::NoExec,
        spec_from_code(9) == Error::BadFd,
        spec_from_code(11) == Error::TempUnavail,
        spec_from_code(12) == Error::NoMem,
        spec_from_code(13) == Error::NoAccess,
        spec_from_code(14) == Error::BadAddress,
        spec_from_code(16) == Error::Busy,
        spec_from_code(17) == Error::Exists,
        spec_from_code(18) == Error::CrossDev,
        spec_from_code(19) == Error::NoDev,
        spec_from_code(22) == Error::InvalidArg,
        spec_from_code(28) == Error::NoSpace,
        spec_from_code(32) == Error::BrokenPipe,
        spec_from_code(34) == Error::OutOfRange,
        spec_from_code(75) == Error::Overflow,
        spec_from_code(95) == Error::NotSupported,
        spec_from_code(114) == Error::Already,
        spec_from_code(105) == Error::NoBuf,
        spec_from_code(71) == Error::Proto,
        spec_from_code(1001) == Error::Secondary,
        spec_from_code(1002) == Error::NoConfig,
        spec_from_code(1003) == Error::Poisoned,
        spec_from_code(1004) == Error::NotStart,
        spec_from_code(1005) == Error::NotExist,
{
}

/// A DPDK return value is success when it is zero or positive, and the
/// error of `code` when it is `-code`.
pub proof fn lemma_from_ret_meaning(ret: i32)
    ensures
        ret >= 0 ==> spec_from_ret(ret) == core::result::Result::<(), Error>::Ok(()),
        i32::MIN < ret < 0 ==> spec_from_ret(ret) == core::result::Result::<(), Error>::Err(
            spec_from_code((-ret) as i32),
        ),
{
}

} // verus!
