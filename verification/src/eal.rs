//! Configuration of the Environment Abstraction Layer: the argument list
//! passed to DPDK's initialisation, the addresses of the devices to probe and
//! the queue limit.

use vstd::prelude::*;
use vstd::string::is_ascii;
use vstd::string::StringSliceAdditionalSpecFns;
use crate::errno::Error;
use crate::inet::InetAddr;

verus! {

broadcast use vstd::string::is_ascii_spec_bytes;

/// The existence of an `Eal` value shows that a DPDK environment is ready.
#[derive(Debug)]
pub struct Eal {}

/// IOVA mode: whether devices see physical or virtual addresses.
#[derive(Clone, Copy, Debug, PartialEq, Eq, Structural)]
pub enum IovaMode {
    /// Physical addresses.
    PA,
    /// Virtual addresses.
    VA,
}

/// A DPDK virtual device, with its id.
#[derive(Clone, Copy, Debug, PartialEq, Eq, Structural)]
pub enum Vdev {
    /// A null device: every packet received is empty, every packet sent is
    /// freed.
    Null(i32),
    /// A device reading and writing a pcap file.
    Pcap(i32),
    /// A device backed by an `rte_ring`.
    Ring(i32),
}

/// DPDK log level.
#[derive(Clone, Copy, Debug, PartialEq, Eq, Structural)]
pub enum LogLevel {
    /// System is unusable.
    Emergency,
    /// Action must be taken immediately.
    Alert,
    /// Critical conditions.
    Critical,
    /// Error conditions.
    Error,
    /// Warning conditions.
    Warn,
    /// Normal but significant conditions.
    Notice,
    /// Informational.
    Info,
    /// Debug-level messages.
    Debug,
}

impl LogLevel {
    /// The level's number, 1 (emergency) to 8 (debug).
    pub open spec fn spec_level(self) -> u32 {
        match self {
            LogLevel::Emergency => 1,
            LogLevel::Alert => 2,
            LogLevel::Critical => 3,
            LogLevel::Error => 4,
            LogLevel::Warn => 5,
            LogLevel::Notice => 6,
            LogLevel::Info => 7,
            LogLevel::Debug => 8,
        }
    }

    /// The level's number, 1 (emergency) to 8 (debug).
    pub fn level(&self) -> (n: u32)
        ensures
            n == self.spec_level(),
    {
        match *self {
            LogLevel::Emergency => 1,
            LogLevel::Alert => 2,
            LogLevel::Critical => 3,
            LogLevel::Error => 4,
            LogLevel::Warn => 5,
            LogLevel::Notice => 6,
            LogLevel::Info => 7,
            LogLevel::Debug => 8,
        }
    }
}

/// Decimal digits of `n`, most significant first, as ASCII bytes.
pub open spec fn spec_decimal(n: nat) -> Seq<u8>
    decreases n,
{
    if n < 10 {
        seq![(48 + n) as u8]
    } else {
        spec_decimal(n / 10).push((48 + n % 10) as u8)
    }
}

/// The lowercase hexadecimal digit for `d` (below 16), as an ASCII byte.
pub open spec fn spec_hex_digit(d: nat) -> u8 {
    if d < 10 {
        (48 + d) as u8
    } else {
        (87 + d) as u8
    }
}

/// Lowercase hexadecimal digits of `n`, most significant first, as ASCII
/// bytes.
pub open spec fn spec_hex(n: nat) -> Seq<u8>
    decreases n,
{
    if n < 16 {
        seq![spec_hex_digit(n)]
    } else {
        spec_hex(n / 16).push(spec_hex_digit(n % 16))
    }
}

/// Decimal text of `n`, with a leading `-` when negative.
pub open spec fn spec_signed_decimal(n: int) -> Seq<u8> {
    if n < 0 {
        seq![45u8] + spec_decimal((-n) as nat)
    } else {
        spec_decimal(n as nat)
    }
}

/// A byte string that can be a C string: no NUL byte in it.
pub open spec fn no_nul(s: Seq<u8>) -> bool {
    forall|i: int| 0 <= i < s.len() ==> s[i] != 0
}

/// Whether the EAL may be initialised: refused with `Already` once it has
/// been.
pub fn check_not_entered(entered: bool) -> (r: Result<(), Error>)
    ensures
        entered ==> r == Err::<(), Error>(Error::Already),
        !entered ==> r == Ok::<(), Error>(()),
{
    if entered {
        Err(Error::Already)
    } else {
        Ok(())
    }
}

/// The bytes of a string.
pub open spec fn text(s: &str) -> Seq<u8> {
    s.spec_bytes()
}

proof fn lemma_decimal_no_nul(n: nat)
    ensures
        no_nul(spec_decimal(n)),
        spec_decimal(n).len() > 0,
    decreases n,
{
    if n >= 10 {
        lemma_decimal_no_nul(n / 10);
    }
}

/// Decimal digits of `n`.
pub fn decimal(n: u64) -> (v: Vec<u8>)
    ensures
        v@ == spec_decimal(n as nat),
        no_nul(v@),
    decreases n,
{
    proof {
        lemma_decimal_no_nul(n as nat);
    }
    if n < 10 {
        let mut v: Vec<u8> = Vec::new();
        v.push((48 + n) as u8);
        assert(v@ =~= seq![(48 + n) as u8]);
        v
    } else {
        let mut v = decimal(n / 10);
        v.push((48 + n % 10) as u8);
        v
    }
}

proof fn lemma_hex_no_nul(n: nat)
    ensures
        no_nul(spec_hex(n)),
        spec_hex(n).len() > 0,
    decreases n,
{
    if n >= 16 {
        lemma_hex_no_nul(n / 16);
    }
}

/// Lowercase hexadecimal digits of `n`.
pub fn hex(n: u64) -> (v: Vec<u8>)
    ensures
        v@ == spec_hex(n as nat),
        no_nul(v@),
    decreases n,
{
    proof {
        lemma_hex_no_nul(n as nat);
    }
    let d: u64 = n % 16;
    let digit: u8 = if d < 10 {
        (48 + d) as u8
    } else {
        (87 + d) as u8
    };
    if n < 16 {
        let mut v: Vec<u8> = Vec::new();
        v.push(digit);
        assert(v@ =~= seq![spec_hex_digit(n as nat)]);
        v
    } else {
        let mut v = hex(n / 16);
        v.push(digit);
        v
    }
}

/// Decimal text of `n`, with a leading `-` when negative.
pub fn signed_decimal(n: i32) -> (v: Vec<u8>)
    ensures
        v@ == spec_signed_decimal(n as int),
        no_nul(v@),
{
    if n < 0 {
        let m: u64 = (-(n as i64)) as u64;
        let digits = decimal(m);
        let mut v: Vec<u8> = Vec::new();
        v.push(45u8);
        let mut i: usize = 0;
        while i < digits.len()
            invariant
                i <= digits@.len(),
                v@ == seq![45u8] + digits@.subrange(0, i as int),
            decreases digits@.len() - i,
        {
            v.push(digits[i]);
            i = i + 1;
            assert(v@ =~= seq![45u8] + digits@.subrange(0, i as int));
        }
        assert(digits@.subrange(0, i as int) =~= digits@);
        v
    } else {
        decimal(n as u64)
    }
}

/// The bytes of an ASCII literal with no NUL in it.
fn literal(s: &str) -> (v: Vec<u8>)
    requires
        is_ascii(s),
        forall|i: int| 0 <= i < s@.len() ==> s@[i] != '\0',
    ensures
        v@ == text(s),
        no_nul(v@),
{
    let v = vstd::slice::slice_to_vec(s.as_bytes());
    assert(is_ascii(s));
    assert(s.spec_bytes() =~= Seq::new(s@.len(), |i| s@.index(i) as u8));
    assert forall|i: int| 0 <= i < v@.len() implies v@[i] != 0 by {
        assert(s@[i] != '\0');
        assert(v@[i] == s@[i] as u8);
    }
    v
}

/// The bytes of a caller's string argument, or `InvalidArg` when it is empty
/// or holds a NUL byte.
fn argument(s: &str) -> (r: Result<Vec<u8>, Error>)
    ensures
        (text(s).len() == 0 || !no_nul(text(s))) ==> r == Err::<Vec<u8>, Error>(Error::InvalidArg),
        (text(s).len() > 0 && no_nul(text(s))) ==> (r matches Ok(v) && v@ == text(s)),
{
    let v = vstd::slice::slice_to_vec(s.as_bytes());
    if v.len() == 0 {
        return Err(Error::InvalidArg);
    }
    let mut i: usize = 0;
    while i < v.len()
        invariant
            i <= v@.len(),
            v@ == text(s),
            forall|j: int| 0 <= j < i ==> v@[j] != 0,
        decreases v@.len() - i,
    {
        if v[i] == 0 {
            return Err(Error::InvalidArg);
        }
        i = i + 1;
    }
    Ok(v)
}

/// Configuration of the EAL, built up before entering it.
pub struct Config {
    args: Vec<Vec<u8>>,
    addrs: Vec<InetAddr>,
    max_queues: Option<u16>,
}

impl Config {
    /// Arguments for DPDK's initialisation, program name first.
    pub closed spec fn args(&self) -> Seq<Seq<u8>> {
        self.args@.map_values(|a: Vec<u8>| a@)
    }

    /// IP addresses of the devices to probe, one per device.
    pub closed spec fn addrs(&self) -> Seq<InetAddr> {
        self.addrs@
    }

    /// The queue limit, when one was set.
    pub closed spec fn spec_max_queues(&self) -> Option<u16> {
        self.max_queues
    }

    /// Every argument can be passed as a C string.
    pub open spec fn wf(&self) -> bool {
        forall|i: int| 0 <= i < self.args().len() ==> no_nul(#[trigger] self.args()[i])
    }

    /// A configuration whose only argument is the program name.
    pub fn new(program: &str) -> (c: Config)
        requires
            no_nul(text(program)),
        ensures
            c.wf(),
            c.args() == seq![text(program)],
            c.addrs() == Seq::<InetAddr>::empty(),
            c.spec_max_queues() == None::<u16>,
    {
        let name = vstd::slice::slice_to_vec(program.as_bytes());
        let mut args: Vec<Vec<u8>> = Vec::new();
        args.push(name);
        let c = Config { args, addrs: Vec::new(), max_queues: None };
        assert(c.args() =~= seq![text(program)]);
        c
    }

    fn push_arg(&mut self, a: Vec<u8>)
        requires
            old(self).wf(),
            no_nul(a@),
        ensures
            final(self).wf(),
            final(self).args() == old(self).args().push(a@),
            final(self).addrs() == old(self).addrs(),
            final(self).spec_max_queues() == old(self).spec_max_queues(),
    {
        self.args.push(a);
        assert(self.args() =~= old(self).args().push(a@));
    }

    /// Adds the devices with the given IP addresses, one per device.
    pub fn device_probe(self, addrs: Vec<InetAddr>) -> (c: Config)
        requires
            self.wf(),
        ensures
            c.wf(),
            c.args() == self.args(),
            c.addrs() == self.addrs() + addrs@,
            c.spec_max_queues() == self.spec_max_queues(),
    {
        let mut this = self;
        let mut i: usize = 0;
        let ghost start = this.addrs@;
        let ghost args0 = this.args();
        let ghost max0 = this.max_queues;
        while i < addrs.len()
            invariant
                i <= addrs@.len(),
                this.addrs@ == start + addrs@.subrange(0, i as int),
                this.args() == args0,
                this.max_queues == max0,
                this.wf(),
            decreases addrs@.len() - i,
        {
            this.addrs.push(addrs[i]);
            i = i + 1;
            assert(this.addrs@ =~= start + addrs@.subrange(0, i as int));
        }
        assert(addrs@.subrange(0, i as int) =~= addrs@);
        this
    }

    /// Sets the core mask: `-c` and the mask in lowercase hexadecimal, the
    /// form in which EAL reads a core bitmask.
    pub fn coremask(self, mask: u64) -> (c: Config)
        requires
            self.wf(),
        ensures
            c.wf(),
            c.args() == self.args().push(text("-c")).push(spec_hex(mask as nat)),
            c.addrs() == self.addrs(),
            c.spec_max_queues() == self.spec_max_queues(),
    {
        let mut this = self;
        proof {
            reveal_strlit("-c");
        }
        this.push_arg(literal("-c"));
        this.push_arg(hex(mask));
        this
    }

    /// Adds a flag and a caller's value; the value must be non-empty and
    /// free of NUL bytes.
    fn flag_with_value(self, flag: Vec<u8>, value: &str) -> (r: Result<Config, Error>)
        requires
            self.wf(),
            no_nul(flag@),
        ensures
            (text(value).len() == 0 || !no_nul(text(value))) ==> r == Err::<Config, Error>(
                Error::InvalidArg,
            ),
            (text(value).len() > 0 && no_nul(text(value))) ==> (r matches Ok(c) && c.wf()
                && c.args() == self.args().push(flag@).push(text(value)) && c.addrs()
                == self.addrs() && c.spec_max_queues() == self.spec_max_queues()),
    {
        let mut this = self;
        this.push_arg(flag);
        let v = match argument(value) {
            Ok(v) => v,
            Err(e) => return Err(e),
        };
        this.push_arg(v);
        Ok(this)
    }

    /// Sets the core list: `-l` and `list`. Fails with `InvalidArg` when
    /// `list` is empty or holds a NUL byte.
    pub fn corelist(self, list: &str) -> (r: Result<Config, Error>)
        requires
            self.wf(),
        ensures
            (text(list).len() == 0 || !no_nul(text(list))) ==> r == Err::<Config, Error>(
                Error::InvalidArg,
            ),
            (text(list).len() > 0 && no_nul(text(list))) ==> (r matches Ok(c) && c.wf()
                && c.args() == self.args().push(text("-l")).push(text(list)) && c.addrs()
                == self.addrs() && c.spec_max_queues() == self.spec_max_queues()),
    {
        proof {
            reveal_strlit("-l");
        }
        self.flag_with_value(literal("-l"), list)
    }

    /// Sets the core map: `--lcores` and `map`. Fails with `InvalidArg` when
    /// `map` is empty or holds a NUL byte.
    pub fn coremap(self, map: &str) -> (r: Result<Config, Error>)
        requires
            self.wf(),
        ensures
            (text(map).len() == 0 || !no_nul(text(map))) ==> r == Err::<Config, Error>(
                Error::InvalidArg,
            ),
            (text(map).len() > 0 && no_nul(text(map))) ==> (r matches Ok(c) && c.wf() && c.args()
                == self.args().push(text("--lcores")).push(text(map)) && c.addrs() == self.addrs()
                && c.spec_max_queues() == self.spec_max_queues()),
    {
        proof {
            reveal_strlit("--lcores");
        }
        self.flag_with_value(literal("--lcores"), map)
    }

    /// Blacklists a PCI device: `-b` and `name`. Fails with `InvalidArg`
    /// when `name` is empty or holds a NUL byte.
    pub fn pci_blacklist(self, name: &str) -> (r: Result<Config, Error>)
        requires
            self.wf(),
        ensures
            (text(name).len() == 0 || !no_nul(text(name))) ==> r == Err::<Config, Error>(
                Error::InvalidArg,
            ),
            (text(name).len() > 0 && no_nul(text(name))) ==> (r matches Ok(c) && c.wf()
                && c.args() == self.args().push(text("-b")).push(text(name)) && c.addrs()
                == self.addrs() && c.spec_max_queues() == self.spec_max_queues()),
    {
        proof {
            reveal_strlit("-b");
        }
        self.flag_with_value(literal("-b"), name)
    }

    /// Whitelists a PCI device: `-w` and `name`. Fails with `InvalidArg`
    /// when `name` is empty or holds a NUL byte.
    pub fn pci_whitelist(self, name: &str) -> (r: Result<Config, Error>)
        requires
            self.wf(),
        ensures
            (text(name).len() == 0 || !no_nul(text(name))) ==> r == Err::<Config, Error>(
                Error::InvalidArg,
            ),
            (text(name).len() > 0 && no_nul(text(name))) ==> (r matches Ok(c) && c.wf()
                && c.args() == self.args().push(text("-w")).push(text(name)) && c.addrs()
                == self.addrs() && c.spec_max_queues() == self.spec_max_queues()),
    {
        proof {
            reveal_strlit("-w");
        }
        self.flag_with_value(literal("-w"), name)
    }

    /// Disables PCI when `no_pci` is set: `--no-pci`.
    pub fn no_pci(self, no_pci: bool) -> (c: Config)
        requires
            self.wf(),
        ensures
            c.wf(),
            c.args() == (if no_pci {
                self.args().push(text("--no-pci"))
            } else {
                self.args()
            }),
            c.addrs() == self.addrs(),
            c.spec_max_queues() == self.spec_max_queues(),
    {
        let mut this = self;
        if no_pci {
            proof {
                reveal_strlit("--no-pci");
            }
            this.push_arg(literal("--no-pci"));
        }
        this
    }

    /// Disables hugepages when `no_huge` is set: `--no-huge`. Needed to run
    /// without root.
    pub fn no_hugepages(self, no_huge: bool) -> (c: Config)
        requires
            self.wf(),
        ensures
            c.wf(),
            c.args() == (if no_huge {
                self.args().push(text("--no-huge"))
            } else {
                self.args()
            }),
            c.addrs() == self.addrs(),
            c.spec_max_queues() == self.spec_max_queues(),
    {
        let mut this = self;
        if no_huge {
            proof {
                reveal_strlit("--no-huge");
            }
            this.push_arg(literal("--no-huge"));
        }
        this
    }

    /// Memory reserved at start, in megabytes: `-m` and the size in decimal.
    pub fn memory_mb(self, size: u32) -> (c: Config)
        requires
            self.wf(),
        ensures
            c.wf(),
            c.args() == self.args().push(text("-m")).push(spec_decimal(size as nat)),
            c.addrs() == self.addrs(),
            c.spec_max_queues() == self.spec_max_queues(),
    {
        let mut this = self;
        proof {
            reveal_strlit("-m");
        }
        this.push_arg(literal("-m"));
        this.push_arg(decimal(size as u64));
        this
    }

    /// Sets the IOVA mode: `--iova-mode` and `pa` or `va`.
    pub fn iova_mode(self, mode: IovaMode) -> (c: Config)
        requires
            self.wf(),
        ensures
            c.wf(),
            c.args() == self.args().push(text("--iova-mode")).push(
                match mode {
                    IovaMode::PA => text("pa"),
                    IovaMode::VA => text("va"),
                },
            ),
            c.addrs() == self.addrs(),
            c.spec_max_queues() == self.spec_max_queues(),
    {
        let mut this = self;
        proof {
            reveal_strlit("--iova-mode");
        }
        this.push_arg(literal("--iova-mode"));
        match mode {
            IovaMode::PA => {
                proof {
                    reveal_strlit("pa");
                }
                this.push_arg(literal("pa"));
            },
            IovaMode::VA => {
                proof {
                    reveal_strlit("va");
                }
                this.push_arg(literal("va"));
            },
        }
        this
    }

    /// Adds a virtual device: `--vdev` and its name, `net_null`, `net_pcap`
    /// or `net_ring` followed by the id in decimal.
    pub fn vdev(self, vdev: Vdev) -> (c: Config)
        requires
            self.wf(),
        ensures
            c.wf(),
            c.args() == self.args().push(text("--vdev")).push(
                match vdev {
                    Vdev::Null(id) => text("net_null") + spec_signed_decimal(id as int),
                    Vdev::Pcap(id) => text("net_pcap") + spec_signed_decimal(id as int),
                    Vdev::Ring(id) => text("net_ring") + spec_signed_decimal(id as int),
                },
            ),
            c.addrs() == self.addrs(),
            c.spec_max_queues() == self.spec_max_queues(),
    {
        let mut this = self;
        proof {
            reveal_strlit("--vdev");
        }
        this.push_arg(literal("--vdev"));
        let (mut name, id) = match vdev {
            Vdev::Null(id) => {
                proof {
                    reveal_strlit("net_null");
                }
                (literal("net_null"), id)
            },
            Vdev::Pcap(id) => {
                proof {
                    reveal_strlit("net_pcap");
                }
                (literal("net_pcap"), id)
            },
            Vdev::Ring(id) => {
                proof {
                    reveal_strlit("net_ring");
                }
                (literal("net_ring"), id)
            },
        };
        let digits = signed_decimal(id);
        let ghost prefix = name@;
        let mut i: usize = 0;
        while i < digits.len()
            invariant
                i <= digits@.len(),
                name@ == prefix + digits@.subrange(0, i as int),
                no_nul(prefix),
                no_nul(digits@),
            decreases digits@.len() - i,
        {
            name.push(digits[i]);
            i = i + 1;
            assert(name@ =~= prefix + digits@.subrange(0, i as int));
        }
        assert(digits@.subrange(0, i as int) =~= digits@);
        this.push_arg(name);
        this
    }

    /// Sets the log level: `--log-level` and its number in decimal.
    pub fn log_level(self, log_level: LogLevel) -> (c: Config)
        requires
            self.wf(),
        ensures
            c.wf(),
            c.args() == self.args().push(text("--log-level")).push(
                spec_decimal(log_level.spec_level() as nat),
            ),
            c.addrs() == self.addrs(),
            c.spec_max_queues() == self.spec_max_queues(),
    {
        let mut this = self;
        proof {
            reveal_strlit("--log-level");
        }
        this.push_arg(literal("--log-level"));
        this.push_arg(decimal(log_level.level() as u64));
        this
    }

    /// Sets the largest number of RX and TX queues of each device.
    pub fn max_queues(self, max_queues: u16) -> (c: Config)
        ensures
            c.args() == self.args(),
            c.addrs() == self.addrs(),
            c.spec_max_queues() == Some(max_queues),
    {
        let mut this = self;
        this.max_queues = Some(max_queues);
        this
    }

    /// The arguments, for handing to DPDK.
    pub fn arguments(&self) -> (v: &Vec<Vec<u8>>)
        ensures
            v@.map_values(|a: Vec<u8>| a@) == self.args(),
    {
        &self.args
    }

    /// The addresses of the devices to probe.
    pub fn addresses(&self) -> (v: &Vec<InetAddr>)
        ensures
            v@ == self.addrs(),
    {
        &self.addrs
    }

    /// The argument count for DPDK's initialisation; `TooBig` when it does
    /// not fit in an `i32`.
    pub fn argc(&self) -> (r: Result<i32, Error>)
        ensures
            self.args().len() > i32::MAX ==> r == Err::<i32, Error>(Error::TooBig),
            self.args().len() <= i32::MAX ==> r == Ok::<i32, Error>(self.args().len() as i32),
    {
        if self.args.len() > i32::MAX as usize {
            Err(Error::TooBig)
        } else {
            Ok(self.args.len() as i32)
        }
    }

    /// The queue limit for probing devices: the one set, or 65535 when none
    /// was; a limit of 0 is `InvalidArg`.
    pub fn queue_limit(&self) -> (r: Result<u16, Error>)
        ensures
            r == (match self.spec_max_queues() {
                Some(0) => Err::<u16, Error>(Error::InvalidArg),
                Some(n) => Ok::<u16, Error>(n),
                None => Ok::<u16, Error>(u16::MAX),
            }),
    {
        match self.max_queues {
            Some(0) => Err(Error::InvalidArg),
            Some(n) => Ok(n),
            None => Ok(u16::MAX),
        }
    }
}

/// The log levels carry DPDK's `RTE_LOG_*` numbers: from the most severe,
/// emergency, at 1 up to debug at 8, one apart in order of severity. The
/// argument given for a level is that single digit.
pub proof fn lemma_log_level_numbers(l: LogLevel)
    ensures
        LogLevel::Emergency.spec_level() == 1,
        LogLevel::Alert.spec_level() == 2,
        LogLevel::Critical.spec_level() == 3,
        LogLevel::Error.spec_level() == 4,
        LogLevel::Warn.spec_level() == 5,
        LogLevel::Notice.spec_level() == 6,
        LogLevel::Info.spec_level() == 7,
        LogLevel::Debug.spec_level() == 8,
        1 <= l.spec_level() <= 8,
        spec_decimal(l.spec_level() as nat) == seq![(48 + l.spec_level()) as u8],
{
}

} // verus!
