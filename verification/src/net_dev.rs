//! The table of probed network devices: which IP address each device
//! answers to and whether it is running.

use vstd::prelude::*;
use crate::errno::Error;
use crate::inet::InetAddr;

verus! {

/// A device that can be bound to by its IP address.
#[derive(Clone, Copy, Debug, PartialEq, Eq, Structural)]
pub struct InetDevice {
    /// The IP address assigned to the device.
    pub ip: InetAddr,
    /// The DPDK port of the device.
    pub port_id: u16,
    /// Whether the device is started.
    pub running: bool,
}

/// All probed devices, in probing order.
pub struct DeviceTable {
    devices: Vec<InetDevice>,
}

/// `addrs` with every repeated address dropped: each address is kept where
/// it first occurs.
pub open spec fn spec_dedup(addrs: Seq<InetAddr>) -> Seq<InetAddr>
    decreases addrs.len(),
{
    if addrs.len() == 0 {
        addrs
    } else {
        let rest = spec_dedup(addrs.drop_last());
        if rest.contains(addrs.last()) {
            rest
        } else {
            rest.push(addrs.last())
        }
    }
}

/// The devices of `devs` with the running flag of the first `k` set to
/// `flag`.
pub open spec fn with_running_prefix(devs: Seq<InetDevice>, k: int, flag: bool) -> Seq<InetDevice> {
    Seq::new(
        devs.len(),
        |i: int|
            if i < k {
                InetDevice { running: flag, ..devs[i] }
            } else {
                devs[i]
            },
    )
}

/// The device answering to `addr`: the first whose IP is `addr`.
pub open spec fn spec_index_of_ip(devs: Seq<InetDevice>, addr: InetAddr) -> Option<int> {
    if exists|i: int| 0 <= i < devs.len() && devs[i].ip == addr {
        Some(choose|i: int| 0 <= i < devs.len() && devs[i].ip == addr
            && forall|j: int| 0 <= j < i ==> devs[j].ip != addr)
    } else {
        None
    }
}

/// The device a socket bound to `ip` sends through, looked up from device
/// `i` on: the first device with that IP (which must be running), or, for
/// the unspecified and loopback addresses, the first running device.
pub open spec fn spec_find_from(devs: Seq<InetDevice>, ip: InetAddr, i: int) -> Result<usize, Error>
    decreases devs.len() - i,
{
    if i < 0 || i >= devs.len() {
        Err(Error::InvalidArg)
    } else if devs[i].ip == ip {
        if devs[i].running {
            Ok(i as usize)
        } else {
            Err(Error::NoDev)
        }
    } else if (ip.spec_is_unspecified() || ip.spec_is_loopback()) && devs[i].running {
        Ok(i as usize)
    } else {
        spec_find_from(devs, ip, i + 1)
    }
}

proof fn lemma_unit_ok(r: Result<(), Error>)
    requires
        r is Ok,
    ensures
        r == Ok::<(), Error>(()),
{
    let u: () = r->Ok_0;
    assert(u == ());
}

/// Whether `addr` is among the first `n` elements of `v`.
fn contains_prefix(v: &Vec<InetAddr>, n: usize, addr: InetAddr) -> (b: bool)
    requires
        n <= v@.len(),
    ensures
        b == v@.subrange(0, n as int).contains(addr),
{
    let mut i: usize = 0;
    while i < n
        invariant
            i <= n <= v@.len(),
            forall|j: int| 0 <= j < i ==> v@[j] != addr,
        decreases n - i,
    {
        if v[i] == addr {
            assert(v@.subrange(0, n as int)[i as int] == addr);
            return true;
        }
        i = i + 1;
    }
    assert forall|j: int| 0 <= j < n implies v@.subrange(0, n as int)[j] != addr by {
        assert(v@.subrange(0, n as int)[j] == v@[j]);
    }
    false
}

/// Drops every repeated address, keeping the first occurrence of each.
pub fn dedup(addrs: &Vec<InetAddr>) -> (r: Vec<InetAddr>)
    ensures
        r@ == spec_dedup(addrs@),
{
    let mut out: Vec<InetAddr> = Vec::new();
    let mut i: usize = 0;
    while i < addrs.len()
        invariant
            i <= addrs@.len(),
            out@ == spec_dedup(addrs@.subrange(0, i as int)),
        decreases addrs@.len() - i,
    {
        let ghost prefix = addrs@.subrange(0, i as int);
        let ghost next = addrs@.subrange(0, i + 1);
        assert(next.drop_last() =~= prefix);
        let n = out.len();
        assert(out@.subrange(0, n as int) =~= out@);
        if !contains_prefix(&out, n, addrs[i]) {
            out.push(addrs[i]);
        }
        i = i + 1;
    }
    assert(addrs@.subrange(0, i as int) =~= addrs@);
    out
}

impl DeviceTable {
    /// The probed devices.
    pub closed spec fn devices(&self) -> Seq<InetDevice> {
        self.devices@
    }

    /// A table with no device.
    pub fn new() -> (t: DeviceTable)
        ensures
            t.devices() == Seq::<InetDevice>::empty(),
    {
        DeviceTable { devices: Vec::new() }
    }

    /// Number of probed devices.
    pub fn len(&self) -> (n: usize)
        ensures
            n == self.devices().len(),
    {
        self.devices.len()
    }

    /// The device at position `i`.
    pub fn get(&self, i: usize) -> (d: InetDevice)
        requires
            i < self.devices().len(),
        ensures
            d == self.devices()[i as int],
    {
        self.devices[i]
    }
}

/// Probes one device per distinct address: repeated addresses are dropped,
/// keeping first occurrences, then device `i` (DPDK port `i`) is opened by
/// `open` and gets the `i`-th address. Fails with `Already` when devices were probed before, with
/// `InvalidArg` when there are more addresses than the `ndev` available
/// ports (or than 65535), and with the error of the first `open` that fails;
/// the devices opened before it stay in the table.
#[verifier::loop_isolation(false)]
pub fn device_probe<F: Fn(u16) -> Result<(), Error>>(
    table: &mut DeviceTable,
    addrs: Vec<InetAddr>,
    ndev: u32,
    open: F,
) -> (r: Result<(), Error>)
    requires
        forall|p: u16| call_requires(open, (p,)),
    ensures
        old(table).devices().len() > 0 ==> r == Err::<(), Error>(Error::Already)
            && final(table).devices() == old(table).devices(),
        old(table).devices().len() == 0 && (ndev < spec_dedup(addrs@).len()
            || spec_dedup(addrs@).len() > u16::MAX) ==> r == Err::<(), Error>(Error::InvalidArg)
            && final(table).devices() == old(table).devices(),
        old(table).devices().len() == 0 && ndev >= spec_dedup(addrs@).len() && spec_dedup(
            addrs@,
        ).len() <= u16::MAX ==> {
            let ips = spec_dedup(addrs@);
            let k = final(table).devices().len();
            &&& k <= ips.len()
            &&& forall|i: int|
                0 <= i < k ==> #[trigger] final(table).devices()[i] == (InetDevice {
                    ip: ips[i],
                    port_id: i as u16,
                    running: false,
                })
            &&& forall|i: int|
                0 <= i < k ==> #[trigger] call_ensures(open, (i as u16,), Ok::<(), Error>(()))
            &&& match r {
                Ok(()) => k == ips.len(),
                Err(e) => k < ips.len() && call_ensures(open, (k as u16,), Err(e)),
            }
        },
{
    if table.devices.len() > 0 {
        return Err(Error::Already);
    }
    let addrs = dedup(&addrs);
    if (ndev as usize) < addrs.len() || (u16::MAX as usize) < addrs.len() {
        return Err(Error::InvalidArg);
    }
    let ghost ips = addrs@;
    let mut i: usize = 0;
    while i < addrs.len()
        invariant
            ips == addrs@,
            addrs@.len() <= u16::MAX,
            i <= addrs@.len(),
            forall|p: u16| call_requires(open, (p,)),
            table.devices@.len() == i,
            forall|j: int|
                0 <= j < i ==> #[trigger] table.devices@[j] == (InetDevice {
                    ip: ips[j],
                    port_id: j as u16,
                    running: false,
                }),
            forall|j: int| 0 <= j < i ==> #[trigger] call_ensures(open, (j as u16,), Ok::<(), Error>(())),
        decreases addrs@.len() - i,
    {
        let port_id = i as u16;
        let res = open(port_id);
        if let Err(e) = res {
            assert(table.devices().len() == i);
            return Err(e);
        }
        proof {
            lemma_unit_ok(res);
        }
        assert(call_ensures(open, (((i as int) as u16),), Ok::<(), Error>(())));
        table.devices.push(InetDevice { ip: addrs[i], port_id, running: false });
        i = i + 1;
    }
    Ok(())
}

/// Starts every device in order with `start`, marking each started one
/// running; stops at the first failure, whose error is returned.
pub fn device_start_all<F: Fn(usize) -> Result<(), Error>>(table: &mut DeviceTable, start: F) -> (r:
    Result<(), Error>)
    requires
        forall|i: usize| call_requires(start, (i,)),
    ensures
        exists|k: int|
            #![trigger with_running_prefix(old(table).devices(), k, true)]
            0 <= k <= old(table).devices().len() && final(table).devices() == with_running_prefix(
                old(table).devices(),
                k,
                true,
            ) && (forall|i: int|
                0 <= i < k ==> #[trigger] call_ensures(start, (i as usize,), Ok::<(), Error>(())))
                && match r {
                Ok(()) => k == old(table).devices().len(),
                Err(e) => k < old(table).devices().len() && call_ensures(start, (k as usize,), Err(e)),
            },
{
    set_running_all(table, start, true)
}

/// Stops every device in order with `stop`, marking each stopped one not
/// running; stops at the first failure, whose error is returned.
pub fn device_stop_all<F: Fn(usize) -> Result<(), Error>>(table: &mut DeviceTable, stop: F) -> (r:
    Result<(), Error>)
    requires
        forall|i: usize| call_requires(stop, (i,)),
    ensures
        exists|k: int|
            #![trigger with_running_prefix(old(table).devices(), k, false)]
            0 <= k <= old(table).devices().len() && final(table).devices() == with_running_prefix(
                old(table).devices(),
                k,
                false,
            ) && (forall|i: int|
                0 <= i < k ==> #[trigger] call_ensures(stop, (i as usize,), Ok::<(), Error>(())))
                && match r {
                Ok(()) => k == old(table).devices().len(),
                Err(e) => k < old(table).devices().len() && call_ensures(stop, (k as usize,), Err(e)),
            },
{
    set_running_all(table, stop, false)
}

#[verifier::loop_isolation(false)]
fn set_running_all<F: Fn(usize) -> Result<(), Error>>(table: &mut DeviceTable, act: F, flag: bool) -> (r:
    Result<(), Error>)
    requires
        forall|i: usize| call_requires(act, (i,)),
    ensures
        exists|k: int|
            #![trigger with_running_prefix(old(table).devices(), k, flag)]
            0 <= k <= old(table).devices().len() && final(table).devices() == with_running_prefix(
                old(table).devices(),
                k,
                flag,
            ) && (forall|i: int|
                0 <= i < k ==> #[trigger] call_ensures(act, (i as usize,), Ok::<(), Error>(())))
                && match r {
                Ok(()) => k == old(table).devices().len(),
                Err(e) => k < old(table).devices().len() && call_ensures(act, (k as usize,), Err(e)),
            },
{
    let ghost orig = table.devices@;
    let mut i: usize = 0;
    while i < table.devices.len()
        invariant
            i <= table.devices@.len(),
            orig.len() == table.devices@.len(),
            forall|j: usize| call_requires(act, (j,)),
            table.devices@ == with_running_prefix(orig, i as int, flag),
            forall|j: int| 0 <= j < i ==> #[trigger] call_ensures(act, (j as usize,), Ok::<(), Error>(())),
        decreases table.devices@.len() - i,
    {
        let res = act(i);
        if let Err(e) = res {
            assert(with_running_prefix(old(table).devices(), i as int, flag) == table.devices@);
            return Err(e);
        }
        proof {
            lemma_unit_ok(res);
        }
        assert(call_ensures(act, (((i as int) as usize),), Ok::<(), Error>(())));
        let mut d = table.devices[i];
        d.running = flag;
        table.devices.set(i, d);
        i = i + 1;
        assert(table.devices@ =~= with_running_prefix(orig, i as int, flag));
    }
    assert(with_running_prefix(old(table).devices(), i as int, flag) == table.devices@);
    Ok(())
}

/// Starts the device answering to `addr` with `start` and marks it running.
/// Fails with `NoDev` when no device has that address, or with the error of
/// `start`, leaving the table as it was.
pub fn device_start<F: FnOnce(usize) -> Result<(), Error>>(table: &mut DeviceTable, addr: InetAddr, start: F) -> (r:
    Result<(), Error>)
    requires
        forall|i: usize| call_requires(start, (i,)),
    ensures
        match spec_index_of_ip(old(table).devices(), addr) {
            None => r == Err::<(), Error>(Error::NoDev) && final(table).devices() == old(table).devices(),
            Some(i) => call_ensures(start, (i as usize,), r) && match r {
                Ok(()) => final(table).devices() == old(table).devices().update(
                    i,
                    (InetDevice { running: true, ..old(table).devices()[i] }),
                ),
                Err(_) => final(table).devices() == old(table).devices(),
            },
        },
{
    set_running_one(table, addr, start, true)
}

/// Stops the device answering to `addr` with `stop` and marks it not running.
/// Fails with `NoDev` when no device has that address, or with the error of
/// `stop`, leaving the table as it was.
pub fn device_stop<F: FnOnce(usize) -> Result<(), Error>>(table: &mut DeviceTable, addr: InetAddr, stop: F) -> (r:
    Result<(), Error>)
    requires
        forall|i: usize| call_requires(stop, (i,)),
    ensures
        match spec_index_of_ip(old(table).devices(), addr) {
            None => r == Err::<(), Error>(Error::NoDev) && final(table).devices() == old(table).devices(),
            Some(i) => call_ensures(stop, (i as usize,), r) && match r {
                Ok(()) => final(table).devices() == old(table).devices().update(
                    i,
                    (InetDevice { running: false, ..old(table).devices()[i] }),
                ),
                Err(_) => final(table).devices() == old(table).devices(),
            },
        },
{
    set_running_one(table, addr, stop, false)
}

#[verifier::loop_isolation(false)]
fn set_running_one<F: FnOnce(usize) -> Result<(), Error>>(
    table: &mut DeviceTable,
    addr: InetAddr,
    act: F,
    flag: bool,
) -> (r: Result<(), Error>)
    requires
        forall|i: usize| call_requires(act, (i,)),
    ensures
        match spec_index_of_ip(old(table).devices(), addr) {
            None => r == Err::<(), Error>(Error::NoDev) && final(table).devices() == old(table).devices(),
            Some(i) => call_ensures(act, (i as usize,), r) && match r {
                Ok(()) => final(table).devices() == old(table).devices().update(
                    i,
                    (InetDevice { running: flag, ..old(table).devices()[i] }),
                ),
                Err(_) => final(table).devices() == old(table).devices(),
            },
        },
{
    let mut i: usize = 0;
    while i < table.devices.len()
        invariant
            i <= table.devices@.len(),
            forall|j: int| 0 <= j < i ==> table.devices@[j].ip != addr,
            table.devices@ == old(table).devices@,
        decreases table.devices@.len() - i,
    {
        if table.devices[i].ip == addr {
            proof {
                let devs = table.devices@;
                assert(exists|i: int| 0 <= i < devs.len() && devs[i].ip == addr);
                let c = choose|c: int| 0 <= c < devs.len() && devs[c].ip == addr
                    && forall|j: int| 0 <= j < c ==> devs[j].ip != addr;
                assert(c == i);
            }
            let res = act(i);
            if let Err(e) = res {
                return Err(e);
            }
            proof {
                lemma_unit_ok(res);
            }
            let mut d = table.devices[i];
            d.running = flag;
            table.devices.set(i, d);
            return Ok(());
        }
        i = i + 1;
    }
    Err(Error::NoDev)
}

/// Removes every device.
pub fn device_close(table: &mut DeviceTable) -> (r: Result<(), Error>)
    ensures
        r == Ok::<(), Error>(()),
        final(table).devices() == Seq::<InetDevice>::empty(),
{
    table.devices.clear();
    Ok(())
}

/// The position of the device a socket bound to `ip` sends through: the
/// first device with that IP, which must be running (else `NoDev`); for the
/// unspecified and loopback addresses also the first running device met
/// before it. `InvalidArg` when no device matches.
#[verifier::loop_isolation(false)]
pub fn find_dev_by_ip(table: &DeviceTable, ip: InetAddr) -> (r: Result<usize, Error>)
    ensures
        r == spec_find_from(table.devices(), ip, 0),
        r matches Ok(i) ==> i < table.devices().len() && table.devices()[i as int].running,
        r matches Ok(i) ==> answers(table.devices()[i as int], ip) && forall|j: int|
            0 <= j < i ==> !answers(#[trigger] table.devices()[j], ip),
        r == Err::<usize, Error>(Error::InvalidArg) <==> forall|j: int|
            0 <= j < table.devices().len() ==> !answers(#[trigger] table.devices()[j], ip),
{
    let count = table.devices.len();
    proof {
        assert(table.devices().len() == count);
        lemma_find_dev_first_answer(table.devices(), ip);
    }
    let special = ip.is_unspecified() || ip.is_loopback();
    let mut i: usize = 0;
    while i < table.devices.len()
        invariant
            i <= table.devices@.len(),
            special == (ip.spec_is_unspecified() || ip.spec_is_loopback()),
            spec_find_from(table.devices@, ip, 0) == spec_find_from(table.devices@, ip, i as int),
        decreases table.devices@.len() - i,
    {
        let d = table.devices[i];
        if d.ip == ip {
            if !d.running {
                return Err(Error::NoDev);
            }
            return Ok(i);
        }
        if special && d.running {
            return Ok(i);
        }
        i = i + 1;
    }
    Err(Error::InvalidArg)
}

/// Starting all devices and then stopping all of them, both without
/// failure, leaves every device not running and otherwise unchanged.
pub proof fn lemma_start_all_then_stop_all(devs: Seq<InetDevice>)
    ensures
        ({
            let started = with_running_prefix(devs, devs.len() as int, true);
            let stopped = with_running_prefix(started, started.len() as int, false);
            &&& forall|i: int| 0 <= i < started.len() ==> (#[trigger] started[i]).running
            &&& stopped.len() == devs.len()
            &&& forall|i: int|
                0 <= i < stopped.len() ==> #[trigger] stopped[i] == (InetDevice { running: false, ..devs[i] })
        }),
{
}

/// An address is kept by `spec_dedup` exactly when it occurs in the input.
pub proof fn lemma_dedup_contains(addrs: Seq<InetAddr>, x: InetAddr)
    ensures
        spec_dedup(addrs).contains(x) <==> addrs.contains(x),
    decreases addrs.len(),
{
    if addrs.len() > 0 {
        let rest = addrs.drop_last();
        let d = spec_dedup(rest);
        lemma_dedup_contains(rest, x);
        if rest.contains(x) {
            let j = choose|j: int| 0 <= j < rest.len() && rest[j] == x;
            assert(addrs[j] == x);
            if !d.contains(addrs.last()) {
                let i = choose|i: int| 0 <= i < d.len() && d[i] == x;
                assert(d.push(addrs.last())[i] == x);
            }
        } else if x == addrs.last() {
            assert(addrs[addrs.len() - 1] == x);
            if !d.contains(x) {
                assert(d.push(x)[d.len() as int] == x);
            }
        } else {
            if addrs.contains(x) {
                let j = choose|j: int| 0 <= j < addrs.len() && addrs[j] == x;
                assert(rest[j] == x);
            }
            if spec_dedup(addrs).contains(x) && !d.contains(addrs.last()) {
                let i = choose|i: int| 0 <= i < d.len() + 1 && d.push(addrs.last())[i] == x;
                assert(d[i] == x);
            }
        }
    }
}

/// No address occurs twice in the output of `spec_dedup`.
pub proof fn lemma_dedup_no_duplicates(addrs: Seq<InetAddr>)
    ensures
        spec_dedup(addrs).no_duplicates(),
    decreases addrs.len(),
{
    if addrs.len() > 0 {
        let rest = addrs.drop_last();
        let d = spec_dedup(rest);
        let x = addrs.last();
        lemma_dedup_no_duplicates(rest);
        if !d.contains(x) {
            assert forall|a: int, b: int| 0 <= a < d.push(x).len() && 0 <= b < d.push(x).len() && a
                != b implies d.push(x)[a] != d.push(x)[b] by {
                if a == d.len() {
                    assert(d[b] != x);
                } else if b == d.len() {
                    assert(d[a] != x);
                }
            }
        }
    }
}

/// `spec_dedup` keeps the input's order of first occurrences: when `y`
/// stands after `x` in the output, every occurrence of `y` in the input
/// comes after some occurrence of `x`.
pub proof fn lemma_dedup_keeps_first_order(addrs: Seq<InetAddr>, i: int, j: int, b: int)
    requires
        0 <= i < j < spec_dedup(addrs).len(),
        0 <= b < addrs.len(),
        addrs[b] == spec_dedup(addrs)[j],
    ensures
        exists|a: int| 0 <= a < b && addrs[a] == spec_dedup(addrs)[i],
    decreases addrs.len(),
{
    let n = addrs.len();
    let rest = addrs.drop_last();
    let d = spec_dedup(rest);
    let x = addrs.last();
    let dd = spec_dedup(addrs);
    if d.contains(x) {
        assert(dd == d);
        if b < n - 1 {
            assert(rest[b] == addrs[b]);
            lemma_dedup_keeps_first_order(rest, i, j, b);
            let a = choose|a: int| 0 <= a < b && rest[a] == d[i];
            assert(addrs[a] == dd[i]);
        } else {
            assert(d[j] == x);
            lemma_dedup_contains(rest, x);
            let b2 = choose|b2: int| 0 <= b2 < rest.len() && rest[b2] == x;
            lemma_dedup_keeps_first_order(rest, i, j, b2);
            let a = choose|a: int| 0 <= a < b2 && rest[a] == d[i];
            assert(addrs[a] == dd[i]);
        }
    } else {
        assert(dd == d.push(x));
        if j < d.len() {
            assert(dd[j] == d[j] && dd[i] == d[i]);
            if b < n - 1 {
                assert(rest[b] == addrs[b]);
                lemma_dedup_keeps_first_order(rest, i, j, b);
                let a = choose|a: int| 0 <= a < b && rest[a] == d[i];
                assert(addrs[a] == dd[i]);
            } else {
                assert(d.contains(d[j]));
                assert(false);
            }
        } else {
            assert(dd[i] == d[i]);
            assert(d.contains(d[i]));
            lemma_dedup_contains(rest, d[i]);
            lemma_dedup_contains(rest, x);
            let a = choose|a: int| 0 <= a < rest.len() && rest[a] == d[i];
            assert(addrs[a] == dd[i]);
            if b < n - 1 {
                assert(rest[b] == x);
                assert(rest.contains(x));
            }
        }
    }
}

/// Dropping repeated addresses twice gives what dropping them once gives.
pub proof fn lemma_dedup_idempotent(addrs: Seq<InetAddr>)
    ensures
        spec_dedup(spec_dedup(addrs)) == spec_dedup(addrs),
{
    lemma_dedup_no_duplicates(addrs);
    lemma_dedup_of_distinct(spec_dedup(addrs));
}

/// A sequence without repeats is left as it is by `spec_dedup`.
pub proof fn lemma_dedup_of_distinct(s: Seq<InetAddr>)
    requires
        s.no_duplicates(),
    ensures
        spec_dedup(s) == s,
    decreases s.len(),
{
    if s.len() > 0 {
        let rest = s.drop_last();
        assert(rest.no_duplicates());
        lemma_dedup_of_distinct(rest);
        if rest.contains(s.last()) {
            let i = choose|i: int| 0 <= i < rest.len() && rest[i] == s.last();
            assert(s[i] == s[s.len() - 1]);
        }
        assert(rest.push(s.last()) =~= s);
    }
}

/// Probed devices have pairwise distinct addresses, whatever the list of
/// addresses they were probed from.
pub proof fn lemma_probed_devices_distinct(addrs: Seq<InetAddr>, devs: Seq<InetDevice>)
    requires
        devs.len() <= spec_dedup(addrs).len(),
        forall|i: int| 0 <= i < devs.len() ==> (#[trigger] devs[i]).ip == spec_dedup(addrs)[i],
    ensures
        forall|i: int, j: int| 0 <= i < j < devs.len() ==> (#[trigger] devs[i]).ip != (#[trigger] devs[j]).ip,
{
    lemma_dedup_no_duplicates(addrs);
    assert forall|i: int, j: int| 0 <= i < j < devs.len() implies (#[trigger] devs[i]).ip != (
    #[trigger] devs[j]).ip by {
        assert(spec_dedup(addrs)[i] != spec_dedup(addrs)[j]);
    }
}

/// Whether device `d` answers a lookup of `ip`: it holds that IP, or `ip`
/// is the unspecified or loopback address and `d` is running.
pub open spec fn answers(d: InetDevice, ip: InetAddr) -> bool {
    d.ip == ip || ((ip.spec_is_unspecified() || ip.spec_is_loopback()) && d.running)
}

/// The lookup settles on the first device in probing order that answers
/// `ip`: it returns that device's position when the device is running and
/// `NoDev` when it is not (it then holds `ip` but is stopped), and
/// `InvalidArg` when no device answers. For the unspecified and loopback
/// addresses with no device holding them, this is the first running device.
pub proof fn lemma_find_dev_first_answer(devs: Seq<InetDevice>, ip: InetAddr)
    requires
        devs.len() <= usize::MAX,
    ensures
        spec_find_from(devs, ip, 0) matches Ok(i) ==> {
            &&& i < devs.len()
            &&& devs[i as int].running
            &&& answers(devs[i as int], ip)
            &&& forall|j: int| 0 <= j < i ==> !answers(#[trigger] devs[j], ip)
        },
        spec_find_from(devs, ip, 0) == Err::<usize, Error>(Error::NoDev) ==> exists|i: int|
            0 <= i < devs.len() && devs[i].ip == ip && !devs[i].running && forall|j: int|
                0 <= j < i ==> !answers(#[trigger] devs[j], ip),
        spec_find_from(devs, ip, 0) == Err::<usize, Error>(Error::InvalidArg) <==> forall|j: int|
            0 <= j < devs.len() ==> !answers(#[trigger] devs[j], ip),
        spec_find_from(devs, ip, 0) is Ok || spec_find_from(devs, ip, 0) == Err::<usize, Error>(
            Error::NoDev,
        ) || spec_find_from(devs, ip, 0) == Err::<usize, Error>(Error::InvalidArg),
{
    lemma_find_from_first_answer(devs, ip, 0);
}

proof fn lemma_find_from_first_answer(devs: Seq<InetDevice>, ip: InetAddr, k: int)
    requires
        0 <= k <= devs.len(),
        devs.len() <= usize::MAX,
    ensures
        spec_find_from(devs, ip, k) matches Ok(i) ==> {
            &&& k <= i < devs.len()
            &&& devs[i as int].running
            &&& answers(devs[i as int], ip)
            &&& forall|j: int| k <= j < i ==> !answers(#[trigger] devs[j], ip)
        },
        spec_find_from(devs, ip, k) == Err::<usize, Error>(Error::NoDev) ==> exists|i: int|
            k <= i < devs.len() && devs[i].ip == ip && !devs[i].running && forall|j: int|
                k <= j < i ==> !answers(#[trigger] devs[j], ip),
        spec_find_from(devs, ip, k) == Err::<usize, Error>(Error::InvalidArg) <==> forall|j: int|
            k <= j < devs.len() ==> !answers(#[trigger] devs[j], ip),
        spec_find_from(devs, ip, k) is Ok || spec_find_from(devs, ip, k) == Err::<usize, Error>(
            Error::NoDev,
        ) || spec_find_from(devs, ip, k) == Err::<usize, Error>(Error::InvalidArg),
    decreases devs.len() - k,
{
    if k < devs.len() {
        lemma_find_from_first_answer(devs, ip, k + 1);
        if answers(devs[k], ip) {
            assert(!(forall|j: int| k <= j < devs.len() ==> !answers(#[trigger] devs[j], ip)));
        } else {
            assert(spec_find_from(devs, ip, k) == spec_find_from(devs, ip, k + 1));
            if spec_find_from(devs, ip, k) == Err::<usize, Error>(Error::NoDev) {
                let i = choose|i: int|
                    k + 1 <= i < devs.len() && devs[i].ip == ip && !devs[i].running && forall|j: int|
                        k + 1 <= j < i ==> !answers(#[trigger] devs[j], ip);
                assert forall|j: int| k <= j < i implies !answers(#[trigger] devs[j], ip) by {
                    if j > k {
                        assert(k + 1 <= j < i);
                    }
                }
            }
            if (forall|j: int| k + 1 <= j < devs.len() ==> !answers(#[trigger] devs[j], ip)) {
                assert forall|j: int| k <= j < devs.len() implies !answers(#[trigger] devs[j], ip) by {
                    if j > k {
                        assert(k + 1 <= j < devs.len());
                    }
                }
            }
        }
    }
}

} // verus!
