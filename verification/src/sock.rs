//! Socket descriptors and UDP port bindings.
//!
//! A `SockTable` hands out descriptors from a fixed pool and remembers the
//! address each open descriptor is bound to; a `PortTable` maps bound ports
//! to descriptors and picks a fresh port when asked for port 0.

use vstd::prelude::*;
use std::collections::HashMap;
use crate::errno::Error;
use crate::inet::InetAddr;

verus! {

broadcast use vstd::std_specs::hash::group_hash_axioms;

/// Number of socket descriptors.
pub const MAX_SOCK_NUM: usize = 1024;

/// Number of usable port numbers: 1 to 65535 (port 0 asks for any port).
pub const NUM_PORTS: u16 = 65535;

/// State of one socket descriptor.
#[derive(Clone, Copy, Debug, PartialEq, Eq, Structural)]
pub enum SockState {
    Unused,
    InUse { ip: InetAddr, port: u16, op: i32 },
}

/// Descriptor table: the state of every descriptor and the stack of free ones.
pub struct SockTable {
    open: Vec<SockState>,
    free_fd: Vec<i32>,
}

/// Port table: which descriptor each bound port belongs to, and the last
/// port handed out automatically.
pub struct PortTable {
    fd: HashMap<u16, i32>,
    next_port: u16,
}

/// The `j`-th port in cyclic order from `start`, skipping port 0:
/// `start, start + 1, ..., 65535, 1, 2, ...`.
pub open spec fn cyclic_port(start: int, j: int) -> int {
    (start - 1 + j) % (NUM_PORTS as int) + 1
}

/// `p` is the first port not in `bound`, going round from `start`.
pub open spec fn is_first_free_port(bound: Set<u16>, start: int, p: u16) -> bool {
    exists|steps: int|
        #![trigger cyclic_port(start, steps)]
        0 <= steps < NUM_PORTS && p as int == cyclic_port(start, steps) && !bound.contains(p)
            && forall|j: int|
            0 <= j < steps ==> bound.contains(#[trigger] cyclic_port(start, j) as u16)
}

impl SockTable {
    /// Table invariant: one state per descriptor, and every free descriptor
    /// is a valid index.
    pub open spec fn wf(&self) -> bool {
        &&& self.states().len() == MAX_SOCK_NUM
        &&& forall|i: int|
            0 <= i < self.free_fds().len() ==> 0 <= #[trigger] self.free_fds()[i] < MAX_SOCK_NUM
    }

    /// The state of each descriptor.
    pub closed spec fn states(&self) -> Seq<SockState> {
        self.open@
    }

    /// The free descriptors; the last one is handed out next.
    pub closed spec fn free_fds(&self) -> Seq<i32> {
        self.free_fd@
    }

    /// A table with every descriptor unused and free, `0` at the bottom of
    /// the free stack.
    pub fn new() -> (t: SockTable)
        ensures
            t.wf(),
            t.states() == Seq::new(MAX_SOCK_NUM as nat, |i: int| SockState::Unused),
            t.free_fds() == Seq::new(MAX_SOCK_NUM as nat, |i: int| i as i32),
    {
        let mut open: Vec<SockState> = Vec::new();
        let mut free_fd: Vec<i32> = Vec::new();
        let mut i: usize = 0;
        while i < MAX_SOCK_NUM
            invariant
                i <= MAX_SOCK_NUM,
                open@.len() == i,
                free_fd@.len() == i,
                forall|k: int| 0 <= k < i ==> open@[k] == SockState::Unused,
                forall|k: int| 0 <= k < i ==> free_fd@[k] == k as i32,
            decreases MAX_SOCK_NUM - i,
        {
            open.push(SockState::Unused);
            free_fd.push(i as i32);
            i = i + 1;
        }
        let t = SockTable { open, free_fd };
        assert(t.states() =~= Seq::new(MAX_SOCK_NUM as nat, |i: int| SockState::Unused));
        assert(t.free_fds() =~= Seq::new(MAX_SOCK_NUM as nat, |i: int| i as i32));
        t
    }

    /// The state of descriptor `fd`.
    pub fn state(&self, fd: usize) -> (s: SockState)
        requires
            self.wf(),
            fd < MAX_SOCK_NUM,
        ensures
            s == self.states()[fd as int],
    {
        self.open[fd]
    }

    /// Number of free descriptors.
    pub fn free_count(&self) -> (n: usize)
        ensures
            n == self.free_fds().len(),
    {
        self.free_fd.len()
    }
}

impl Default for SockTable {
    /// The initial table: every descriptor unused and free.
    fn default() -> (t: SockTable)
        ensures
            t.wf(),
            t.states() == Seq::new(MAX_SOCK_NUM as nat, |i: int| SockState::Unused),
            t.free_fds() == Seq::new(MAX_SOCK_NUM as nat, |i: int| i as i32),
    {
        SockTable::new()
    }
}

impl Default for PortTable {
    /// The initial table: no port bound.
    fn default() -> (t: PortTable)
        ensures
            t.wf(),
            t.bindings() == Map::<u16, i32>::empty(),
            t.last_auto_port() == 0,
    {
        PortTable::new()
    }
}

impl PortTable {
    /// Table invariant: port 0 is never bound, and at most 65534 ports are.
    pub open spec fn wf(&self) -> bool {
        &&& !self.bindings().contains_key(0)
        &&& self.bindings().len() <= NUM_PORTS - 1
    }

    /// Bound ports and their descriptors.
    pub closed spec fn bindings(&self) -> Map<u16, i32> {
        self.fd@
    }

    /// The last automatically chosen port (0 before the first).
    pub closed spec fn last_auto_port(&self) -> u16 {
        self.next_port
    }

    /// An empty table.
    pub fn new() -> (t: PortTable)
        ensures
            t.wf(),
            t.bindings() == Map::<u16, i32>::empty(),
            t.last_auto_port() == 0,
    {
        PortTable { fd: HashMap::new(), next_port: 0 }
    }

    /// The descriptor bound to `port`, if any.
    pub fn lookup(&self, port: u16) -> (r: Option<i32>)
        ensures
            r == (if self.bindings().contains_key(port) {
                Some(self.bindings()[port])
            } else {
                None
            }),
    {
        match self.fd.get(&port) {
            Some(v) => Some(*v),
            None => None,
        }
    }

    /// The last automatically chosen port.
    pub fn next_port(&self) -> (p: u16)
        ensures
            p == self.last_auto_port(),
    {
        self.next_port
    }
}

proof fn lemma_cyclic_port_range(start: int, j: int)
    requires
        1 <= start <= NUM_PORTS,
        0 <= j,
    ensures
        1 <= cyclic_port(start, j) <= NUM_PORTS,
{
}

proof fn lemma_cyclic_port_step(start: int, j: int)
    requires
        1 <= start <= NUM_PORTS,
        0 <= j,
    ensures
        cyclic_port(start, j + 1) == if cyclic_port(start, j) == NUM_PORTS {
            1
        } else {
            cyclic_port(start, j) + 1
        },
{
}

proof fn lemma_cyclic_port_distinct(start: int, i: int, j: int)
    requires
        1 <= start <= NUM_PORTS,
        0 <= i < j < NUM_PORTS,
    ensures
        cyclic_port(start, i) != cyclic_port(start, j),
{
    let a = start - 1 + i;
    let b = start - 1 + j;
    assert(0 <= a < b);
    assert(b - a < NUM_PORTS);
    assert(a % 65535 != b % 65535) by (nonlinear_arith)
        requires
            0 <= a < b,
            b - a < 65535,
    {
        vstd::arithmetic::div_mod::lemma_fundamental_div_mod(a, 65535);
        vstd::arithmetic::div_mod::lemma_fundamental_div_mod(b, 65535);
    }
}

/// Binds `fd` to `port` and returns the port. Port 0 asks for a fresh port:
/// the first unbound port after the last one chosen this way, going round
/// from 65535 to 1.
///
/// Fails with `NoBuf` when 65534 ports are bound, and with `InvalidArg` when
/// a non-zero `port` is already bound.
pub fn bind_port(ports: &mut PortTable, port: u16, fd: i32) -> (r: Result<u16, Error>)
    requires
        old(ports).wf(),
        port == 0 ==> old(ports).last_auto_port() < NUM_PORTS,
    ensures
        final(ports).wf(),
        old(ports).bindings().len() == NUM_PORTS - 1 ==> {
            &&& r == Err::<u16, Error>(Error::NoBuf)
            &&& *final(ports) == *old(ports)
        },
        old(ports).bindings().len() != NUM_PORTS - 1 && port != 0 ==> {
            if old(ports).bindings().contains_key(port) {
                &&& r == Err::<u16, Error>(Error::InvalidArg)
                &&& *final(ports) == *old(ports)
            } else {
                &&& r == Ok::<u16, Error>(port)
                &&& final(ports).bindings() == old(ports).bindings().insert(port, fd)
                &&& final(ports).last_auto_port() == old(ports).last_auto_port()
            }
        },
        old(ports).bindings().len() != NUM_PORTS - 1 && port == 0 ==> {
            exists|p: u16|
                {
                    &&& r == Ok::<u16, Error>(p)
                    &&& p != 0
                    &&& is_first_free_port(
                        old(ports).bindings().dom(),
                        old(ports).last_auto_port() + 1,
                        p,
                    )
                    &&& final(ports).bindings() == old(ports).bindings().insert(p, fd)
                    &&& final(ports).last_auto_port() == p
                }
        },
{
    if ports.fd.len() == (NUM_PORTS - 1) as usize {
        return Err(Error::NoBuf);
    }
    let chosen: u16;
    if port == 0 {
        let start: u16 = ports.next_port + 1;
        let ghost bound = ports.fd@.dom();
        let ghost mut visited: Set<u16> = Set::empty();
        let mut next_port: u16 = start;
        let ghost mut steps: int = 0;
        proof {
            vstd::set_lib::lemma_len_subset(visited, bound);
        }
        while ports.fd.contains_key(&next_port)
            invariant
                bound == ports.fd@.dom(),
                bound.finite(),
                bound.len() < NUM_PORTS - 1,
                !bound.contains(0),
                1 <= start <= NUM_PORTS,
                0 <= steps,
                steps == visited.len(),
                visited.finite(),
                visited.subset_of(bound),
                next_port as int == cyclic_port(start as int, steps),
                forall|q: u16| #[trigger]
                    visited.contains(q) ==> exists|j: int|
                        0 <= j < steps && q as int == #[trigger] cyclic_port(start as int, j),
                forall|j: int|
                    0 <= j < steps ==> bound.contains(#[trigger] cyclic_port(start as int, j) as u16),
            decreases NUM_PORTS - steps,
        {
            proof {
                assert(!visited.contains(next_port)) by {
                    if visited.contains(next_port) {
                        let j = choose|j: int|
                            0 <= j < steps && next_port as int == #[trigger] cyclic_port(
                                start as int,
                                j,
                            );
                        vstd::set_lib::lemma_len_subset(visited, bound);
                        lemma_cyclic_port_distinct(start as int, j, steps);
                    }
                }
                let new_visited = visited.insert(next_port);
                assert(new_visited.subset_of(bound));
                vstd::set_lib::lemma_len_subset(new_visited, bound);
                assert forall|q: u16| #[trigger]
                    new_visited.contains(q) implies exists|j: int|
                        0 <= j < steps + 1 && q as int == #[trigger] cyclic_port(
                            start as int,
                            j,
                        ) by {
                    if q == next_port {
                        assert(q as int == cyclic_port(start as int, steps));
                    } else {
                        assert(visited.contains(q));
                    }
                }
                visited = new_visited;
                lemma_cyclic_port_step(start as int, steps);
                lemma_cyclic_port_range(start as int, steps + 1);
            }
            next_port = next_port.wrapping_add(1);
            if next_port == 0 {
                next_port = 1;
            }
            proof {
                steps = steps + 1;
            }
        }
        proof {
            vstd::set_lib::lemma_len_subset(visited, bound);
            lemma_cyclic_port_range(start as int, steps);
            assert(is_first_free_port(bound, start as int, next_port));
        }
        ports.next_port = next_port;
        chosen = next_port;
    } else {
        if ports.fd.contains_key(&port) {
            return Err(Error::InvalidArg);
        }
        chosen = port;
    }
    let _ = ports.fd.insert(chosen, fd);
    Ok(chosen)
}

/// Releases `port`; releasing a port that is not bound changes nothing.
pub fn free_port(ports: &mut PortTable, port: u16)
    requires
        old(ports).wf(),
    ensures
        final(ports).wf(),
        final(ports).bindings() == old(ports).bindings().remove(port),
        final(ports).last_auto_port() == old(ports).last_auto_port(),
{
    let _ = ports.fd.remove(&port);
}

/// Opens a socket descriptor bound to `ip` and `port` (port 0: a fresh
/// port, as `bind_port` chooses it) and returns the descriptor, the last one
/// on the free stack.
///
/// Fails with `NoBuf` when no descriptor is free. When the port cannot be
/// bound, the descriptor taken from the stack is not given back and the
/// port error is returned.
pub fn bind_fd(socks: &mut SockTable, ports: &mut PortTable, ip: InetAddr, port: u16) -> (r: Result<i32, Error>)
    requires
        old(socks).wf(),
        old(ports).wf(),
        port == 0 ==> old(ports).last_auto_port() < NUM_PORTS,
    ensures
        final(socks).wf(),
        final(ports).wf(),
        r matches Ok(f) ==> 0 <= f < MAX_SOCK_NUM,
        old(socks).free_fds().len() == 0 ==> {
            &&& r == Err::<i32, Error>(Error::NoBuf)
            &&& *final(socks) == *old(socks)
            &&& *final(ports) == *old(ports)
        },
        old(socks).free_fds().len() > 0 ==> {
            let fd = old(socks).free_fds().last();
            let full = old(ports).bindings().len() == NUM_PORTS - 1;
            let taken = port != 0 && old(ports).bindings().contains_key(port);
            &&& final(socks).free_fds() == old(socks).free_fds().drop_last()
            &&& full ==> r == Err::<i32, Error>(Error::NoBuf)
            &&& !full && taken ==> r == Err::<i32, Error>(Error::InvalidArg)
            &&& (full || taken) ==> {
                &&& final(socks).states() == old(socks).states()
                &&& *final(ports) == *old(ports)
            }
            &&& !full && !taken ==> {
                &&& r == Ok::<i32, Error>(fd)
                &&& exists|p: u16|
                    {
                        &&& p != 0
                        &&& !old(ports).bindings().contains_key(p)
                        &&& final(ports).bindings() == old(ports).bindings().insert(p, fd)
                        &&& (port != 0 ==> p == port && final(ports).last_auto_port()
                            == old(ports).last_auto_port())
                        &&& (port == 0 ==> is_first_free_port(
                            old(ports).bindings().dom(),
                            old(ports).last_auto_port() + 1,
                            p,
                        ) && final(ports).last_auto_port() == p)
                        &&& final(socks).states() == old(socks).states().update(
                            fd as int,
                            (SockState::InUse { ip: ip, port: p, op: 0 }),
                        )
                    }
            }
        },
{
    if socks.free_fd.len() == 0 {
        return Err(Error::NoBuf);
    }
    let fd = match socks.free_fd.pop() {
        Some(fd) => fd,
        None => return Err(Error::NoBuf),
    };
    let bound = match bind_port(ports, port, fd) {
        Ok(p) => p,
        Err(e) => return Err(e),
    };
    socks.open.set(fd as usize, SockState::InUse { ip, port: bound, op: 0 });
    Ok(fd)
}

/// Closes descriptor `fd`: marks it unused, pushes it on the free stack and
/// releases the port it was bound to. Fails with `BadFd` when `fd` is
/// negative; `fd` must be below `MAX_SOCK_NUM`.
pub fn free_fd(socks: &mut SockTable, ports: &mut PortTable, fd: i32) -> (r: Result<(), Error>)
    requires
        old(socks).wf(),
        old(ports).wf(),
        fd < MAX_SOCK_NUM,
    ensures
        final(socks).wf(),
        final(ports).wf(),
        fd < 0 ==> {
            &&& r == Err::<(), Error>(Error::BadFd)
            &&& *final(socks) == *old(socks)
            &&& *final(ports) == *old(ports)
        },
        fd >= 0 ==> {
            &&& r == Ok::<(), Error>(())
            &&& final(socks).states() == old(socks).states().update(fd as int, SockState::Unused)
            &&& final(socks).free_fds() == old(socks).free_fds().push(fd)
            &&& final(ports).bindings() == old(ports).bindings().remove(
                bound_port(old(socks).states()[fd as int]),
            )
            &&& final(ports).last_auto_port() == old(ports).last_auto_port()
        },
{
    if fd < 0 {
        return Err(Error::BadFd);
    }
    let port = match socks.open[fd as usize] {
        SockState::InUse { port, .. } => port,
        _ => 0,
    };
    socks.open.set(fd as usize, SockState::Unused);
    socks.free_fd.push(fd);
    assert forall|i: int| 0 <= i < socks.free_fds().len() implies 0 <= #[trigger] socks.free_fds()[i]
        < MAX_SOCK_NUM by {
        if i < old(socks).free_fds().len() {
            assert(socks.free_fds()[i] == old(socks).free_fds()[i]);
        }
    }
    free_port(ports, port);
    Ok(())
}

/// The port a descriptor holds: its bound port, or 0 when unused.
pub open spec fn bound_port(s: SockState) -> u16 {
    match s {
        SockState::InUse { port, .. } => port,
        SockState::Unused => 0,
    }
}

/// Binding an unbound non-zero port and then releasing it leaves the port
/// table's bindings as they were.
pub proof fn lemma_bind_then_free_port(before: Map<u16, i32>, port: u16, fd: i32)
    requires
        !before.contains_key(port),
    ensures
        before.insert(port, fd).remove(port) == before,
{
    assert(before.insert(port, fd).remove(port) =~= before);
}

/// Closing the descriptor that opening just took puts the free stack back
/// as it was.
pub proof fn lemma_free_fd_restores_free_stack(free: Seq<i32>)
    requires
        free.len() > 0,
    ensures
        free.drop_last().push(free.last()) == free,
{
    assert(free.drop_last().push(free.last()) =~= free);
}

/// Closing a descriptor opened on an unbound port releases that port: the
/// port table's bindings are as they were before the opening.
pub proof fn lemma_bind_fd_then_free_fd_ports(before: Map<u16, i32>, p: u16, fd: i32, ip: InetAddr)
    requires
        !before.contains_key(p),
    ensures
        before.insert(p, fd).remove(bound_port((SockState::InUse { ip: ip, port: p, op: 0 }))) == before,
{
    assert(before.insert(p, fd).remove(p) =~= before);
}

} // verus!
