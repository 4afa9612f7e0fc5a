//! Decisions of the RX/TX agents: classifying received Ethernet frames, the
//! sets of queues each agent polls, and the transmit buffer that holds
//! outgoing mbufs until the NIC takes them.

use vstd::prelude::*;
use std::collections::{BTreeMap, BTreeSet, VecDeque};
use vstd::std_specs::btree::{increasing_seq, spec_btree_keys_iter, spec_keys_iter};
use vstd::laws_cmp::obeys_cmp;
use vstd::std_specs::cmp::OrdSpec;
use vstd::std_specs::iter::IteratorSpec;
use crate::errno::Error;
use crate::proto::{ETHER_HDR_LEN, IP_NEXT_PROTO_UDP};

verus! {

/// Ether type of IPv4.
pub const ETHER_TYPE_IPV4: u32 = 0x0800;

/// Ether type of IPv6.
pub const ETHER_TYPE_IPV6: u32 = 0x86DD;

/// Ether type of ARP.
pub const ETHER_TYPE_ARP: u32 = 0x0806;

/// Size of an IPv4 header without options.
pub const IPV4_HDR_LEN: usize = 20;

/// Size of an IPv6 header.
pub const IPV6_HDR_LEN: usize = 40;

/// Ethernet MTU.
pub const ETHER_MTU: usize = 1500;

/// Burst size for receiving and transmitting.
pub const MAX_PKT_BURST: u16 = 32;

/// Capacity of a transmit buffer.
pub const TX_BUF_SIZE: usize = 1024;

/// What the classification of a frame reads from its headers: the ether
/// type, the L4 protocol id, and the header lengths to record in the mbuf
/// (`l4_len` only for UDP).
#[derive(Clone, Copy, Debug, PartialEq, Eq, Structural)]
pub struct EtherInfo {
    pub ether_type: u32,
    pub proto_id: u8,
    pub l3_len: u16,
    pub l4_len: Option<u16>,
}

/// What the receive path does with a frame.
#[derive(Clone, Copy, Debug, PartialEq, Eq, Structural)]
pub enum RxPlan {
    /// The frame is dropped.
    Drop,
    /// The IPv4 packet is handed to UDP.
    DeliverUdp,
    /// The IPv4 fragment goes to reassembly; once whole, it is handed to UDP
    /// when the flag is set and dropped otherwise.
    Reassemble(bool),
}

/// The ether type: bytes 12 and 13 of the frame, big-endian.
pub open spec fn spec_ether_type(frame: Seq<u8>) -> u32 {
    ((frame[12] as int) * 256 + frame[13] as int) as u32
}

/// Classification of a frame: `None` unless it holds a whole Ethernet header
/// followed by a whole IPv4 or IPv6 header.
pub open spec fn spec_parse_ether(frame: Seq<u8>) -> Option<EtherInfo> {
    if frame.len() < ETHER_HDR_LEN {
        None
    } else {
        let et = spec_ether_type(frame);
        let remain = frame.len() - ETHER_HDR_LEN;
        if et == ETHER_TYPE_IPV4 && remain >= IPV4_HDR_LEN {
            let proto = frame[ETHER_HDR_LEN + 9];
            Some(EtherInfo {
                ether_type: et,
                proto_id: proto,
                l3_len: 20,
                l4_len: if proto == IP_NEXT_PROTO_UDP { Some(8u16) } else { None },
            })
        } else if et == ETHER_TYPE_IPV6 && remain >= IPV6_HDR_LEN {
            let proto = frame[ETHER_HDR_LEN + 6];
            Some(EtherInfo {
                ether_type: et,
                proto_id: proto,
                l3_len: 40,
                l4_len: if proto == IP_NEXT_PROTO_UDP { Some(8u16) } else { None },
            })
        } else {
            None
        }
    }
}

/// An IPv4 header (at least 8 bytes) belongs to a fragment when its
/// more-fragments flag or its fragment offset is set: the low 14 bits of
/// bytes 6 and 7, big-endian.
pub open spec fn spec_ipv4_is_fragmented(hdr: Seq<u8>) -> bool {
    ((hdr[6] as int) * 256 + hdr[7] as int) % 0x4000 != 0
}

/// The receive plan of a frame.
pub open spec fn spec_handle_ether(frame: Seq<u8>) -> RxPlan {
    match spec_parse_ether(frame) {
        None => RxPlan::Drop,
        Some(info) => if info.ether_type == ETHER_TYPE_IPV4 {
            let udp = info.proto_id == IP_NEXT_PROTO_UDP;
            if spec_ipv4_is_fragmented(frame.subrange(ETHER_HDR_LEN as int, frame.len() as int)) {
                RxPlan::Reassemble(udp)
            } else if udp {
                RxPlan::DeliverUdp
            } else {
                RxPlan::Drop
            }
        } else {
            RxPlan::Drop
        },
    }
}

/// Checks that a frame is an IPv4 or IPv6 packet long enough for its headers
/// and reads its ether type, its L4 protocol id and the header lengths.
pub fn parse_ether_proto(frame: &[u8]) -> (r: Option<EtherInfo>)
    ensures
        r == spec_parse_ether(frame@),
{
    let hdr_len = ETHER_HDR_LEN as usize;
    if frame.len() < hdr_len {
        return None;
    }
    let remain = frame.len() - hdr_len;
    let ether_type: u32 = (frame[12] as u32) * 256 + frame[13] as u32;
    let proto_id: u8;
    let l3_len: u16;
    if ether_type == ETHER_TYPE_IPV4 {
        if remain < IPV4_HDR_LEN {
            return None;
        }
        proto_id = frame[hdr_len + 9];
        l3_len = 20;
    } else if ether_type == ETHER_TYPE_IPV6 {
        if remain < IPV6_HDR_LEN {
            return None;
        }
        proto_id = frame[hdr_len + 6];
        l3_len = 40;
    } else {
        return None;
    }
    let l4_len = if proto_id == IP_NEXT_PROTO_UDP { Some(8u16) } else { None };
    Some(EtherInfo { ether_type, proto_id, l3_len, l4_len })
}

/// Whether an IPv4 header (at least 8 bytes) belongs to a fragmented packet.
pub fn ipv4_is_fragmented(hdr: &[u8]) -> (r: bool)
    requires
        hdr@.len() >= 8,
    ensures
        r == spec_ipv4_is_fragmented(hdr@),
{
    let field: u16 = (hdr[6] as u16) * 256 + hdr[7] as u16;
    let masked: u16 = field & 0x3fff;
    assert(masked == field % 0x4000) by (bit_vector)
        requires
            masked == field & 0x3fff,
    ;
    masked != 0
}

/// Decides what the receive path does with a frame: IPv4 UDP packets are
/// delivered, IPv4 fragments go to reassembly, everything else is dropped.
pub fn handle_ether(frame: &[u8]) -> (plan: RxPlan)
    ensures
        plan == spec_handle_ether(frame@),
        !(frame@.len() >= 34 && frame@[12] == 8 && frame@[13] == 0) ==> plan == RxPlan::Drop,
        plan == RxPlan::DeliverUdp ==> frame@[12] == 8 && frame@[13] == 0 && frame@[23] == 17,
{
    proof {
        lemma_rx_plan_of_frame(frame@);
    }
    match parse_ether_proto(frame) {
        None => RxPlan::Drop,
        Some(info) => {
            if info.ether_type == ETHER_TYPE_IPV4 {
                let udp = info.proto_id == IP_NEXT_PROTO_UDP;
                let hdr_len = ETHER_HDR_LEN as usize;
                let ip_hdr = slice_from(frame, hdr_len);
                if ipv4_is_fragmented(ip_hdr) {
                    RxPlan::Reassemble(udp)
                } else if udp {
                    RxPlan::DeliverUdp
                } else {
                    RxPlan::Drop
                }
            } else {
                RxPlan::Drop
            }
        },
    }
}

/// The bytes of `s` from index `start` on.
fn slice_from(s: &[u8], start: usize) -> (r: &[u8])
    requires
        start <= s@.len(),
    ensures
        r@ == s@.subrange(start as int, s@.len() as int),
{
    vstd::slice::slice_subrange(s, start, s.len())
}

/// A (port, queue) pair naming one device queue.
pub type QueueKey = (u16, u16);

/// Order of queue keys: by port, then by queue.
pub open spec fn key_lt(a: QueueKey, b: QueueKey) -> bool {
    a.0 < b.0 || (a.0 == b.0 && a.1 < b.1)
}

/// `s` is strictly increasing in key order.
pub open spec fn keys_increasing(s: Seq<QueueKey>) -> bool {
    forall|i: int, j: int| 0 <= i < j < s.len() ==> key_lt(#[trigger] s[i], #[trigger] s[j])
}

/// std's order on (port, queue) pairs is `key_lt`.
proof fn lemma_key_order(a: QueueKey, b: QueueKey)
    ensures
        (a.cmp_spec(&b) is Less) <==> key_lt(a, b),
{
}

/// Two items of an increasing sequence compare as its order says.
proof fn lemma_increasing_at<K: Ord>(s: Seq<K>, i: int, j: int)
    requires
        obeys_cmp::<K>(),
        increasing_seq(s),
        0 <= i < j < s.len(),
    ensures
        s[i].cmp_spec(&s[j]) is Less,
{
}

/// A sequence read off an ordered key iterator is in key order.
proof fn lemma_ordered_keys(v: Seq<QueueKey>, r: Seq<&QueueKey>)
    requires
        v.len() == r.len(),
        forall|j: int| 0 <= j < r.len() ==> v[j] == *r[j],
        increasing_seq(r),
    ensures
        v == r.unref(),
        keys_increasing(v),
{
    assert(v =~= r.unref());
    assert(obeys_cmp::<u16>());
    assert(obeys_cmp::<QueueKey>());
    assert(obeys_cmp::<&QueueKey>());
    assert forall|i: int, j: int| 0 <= i < j < v.len() implies key_lt(#[trigger] v[i], #[trigger] v[j]) by {
        lemma_increasing_at(r, i, j);
        lemma_key_order(v[i], v[j]);
    }
}

/// The registered queues of `set`, in key order.
fn set_keys(set: &BTreeSet<QueueKey>) -> (v: Vec<QueueKey>)
    ensures
        v@.to_set() == set@,
        keys_increasing(v@),
{
    let mut v: Vec<QueueKey> = Vec::new();
    for k in it: set.iter()
        invariant
            it.seq() == spec_btree_keys_iter(set).remaining(),
            v@.len() == it.index(),
            forall|j: int| 0 <= j < it.index() ==> v@[j] == *it.seq()[j],
    {
        v.push(*k);
    }
    proof {
        lemma_ordered_keys(v@, spec_btree_keys_iter(set).remaining());
    }
    v
}

/// State of the receive agent: whether it runs, and the queues it polls.
pub struct RxAgent {
    running: bool,
    tasks: BTreeSet<QueueKey>,
}

impl RxAgent {
    /// Whether the agent is running.
    pub closed spec fn spec_running(&self) -> bool {
        self.running
    }

    /// The polled queues.
    pub closed spec fn queues(&self) -> Set<QueueKey> {
        self.tasks@
    }

    /// A running agent with no queue.
    pub fn start() -> (a: RxAgent)
        ensures
            a.spec_running(),
            a.queues() == Set::<QueueKey>::empty(),
    {
        RxAgent { running: true, tasks: BTreeSet::new() }
    }

    /// Stops the agent; its queues stay registered.
    pub fn stop(&mut self)
        ensures
            !final(self).spec_running(),
            final(self).queues() == old(self).queues(),
    {
        self.running = false;
    }

    /// Whether the agent is running.
    pub fn is_running(&self) -> (r: bool)
        ensures
            r == self.spec_running(),
    {
        self.running
    }

    /// Adds a (port, queue) pair to the polled set. Fails with `NotStart`
    /// once the agent is stopped and with `Already` when the pair is polled.
    pub fn register(&mut self, port_id: u16, queue_id: u16) -> (r: Result<(), Error>)
        ensures
            final(self).spec_running() == old(self).spec_running(),
            !old(self).spec_running() ==> r == Err::<(), Error>(Error::NotStart)
                && final(self).queues() == old(self).queues(),
            old(self).spec_running() && old(self).queues().contains((port_id, queue_id)) ==> r
                == Err::<(), Error>(Error::Already) && final(self).queues() == old(self).queues(),
            old(self).spec_running() && !old(self).queues().contains((port_id, queue_id)) ==> r
                == Ok::<(), Error>(()) && final(self).queues() == old(self).queues().insert(
                (port_id, queue_id),
            ),
    {
        if !self.running {
            return Err(Error::NotStart);
        }
        if !self.tasks.insert((port_id, queue_id)) {
            return Err(Error::Already);
        }
        Ok(())
    }

    /// Removes a (port, queue) pair from the polled set. Fails with
    /// `NotStart` once the agent is stopped and with `NotExist` when the pair
    /// is not polled.
    pub fn unregister(&mut self, port_id: u16, queue_id: u16) -> (r: Result<(), Error>)
        ensures
            final(self).spec_running() == old(self).spec_running(),
            !old(self).spec_running() ==> r == Err::<(), Error>(Error::NotStart)
                && final(self).queues() == old(self).queues(),
            old(self).spec_running() && !old(self).queues().contains((port_id, queue_id)) ==> r
                == Err::<(), Error>(Error::NotExist) && final(self).queues() == old(self).queues(),
            old(self).spec_running() && old(self).queues().contains((port_id, queue_id)) ==> r
                == Ok::<(), Error>(()) && final(self).queues() == old(self).queues().remove(
                (port_id, queue_id),
            ),
    {
        if !self.running {
            return Err(Error::NotStart);
        }
        if self.tasks.remove(&(port_id, queue_id)) {
            Ok(())
        } else {
            proof {
                assert(self.tasks@ =~= old(self).tasks@);
            }
            Err(Error::NotExist)
        }
    }

    /// The polled queues, ordered by port and then by queue.
    pub fn queue_list(&self) -> (v: Vec<QueueKey>)
        ensures
            v@.to_set() == self.queues(),
            keys_increasing(v@),
    {
        set_keys(&self.tasks)
    }
}

/// The registered queues of `map`, in key order.
fn map_keys<H>(map: &BTreeMap<QueueKey, H>) -> (v: Vec<QueueKey>)
    ensures
        v@.to_set() == map@.dom(),
        keys_increasing(v@),
{
    let mut v: Vec<QueueKey> = Vec::new();
    for k in it: map.keys()
        invariant
            it.seq() == spec_keys_iter(map).remaining(),
            v@.len() == it.index(),
            forall|j: int| 0 <= j < it.index() ==> v@[j] == *it.seq()[j],
    {
        v.push(*k);
    }
    proof {
        lemma_ordered_keys(v@, spec_keys_iter(map).remaining());
    }
    v
}

/// State of the transmit agent: whether its runtime is up, and the task
/// handle serving each registered queue.
pub struct TxAgent<H> {
    started: bool,
    tasks: BTreeMap<QueueKey, H>,
}

impl<H> TxAgent<H> {
    /// Whether the agent's runtime is up.
    pub closed spec fn spec_started(&self) -> bool {
        self.started
    }

    /// The registered queues and their task handles.
    pub closed spec fn tasks(&self) -> Map<QueueKey, H> {
        self.tasks@
    }

    /// A started agent with no task.
    pub fn start() -> (a: TxAgent<H>)
        ensures
            a.spec_started(),
            a.tasks() == Map::<QueueKey, H>::empty(),
    {
        TxAgent { started: true, tasks: BTreeMap::new() }
    }

    /// Registers a (port, queue) pair with the task that `spawn` starts.
    /// Fails with `Already` when the pair is registered and with `NotStart`
    /// when the agent is shut down; `spawn` is called only on success.
    pub fn register<F: FnOnce() -> H>(&mut self, port_id: u16, queue_id: u16, spawn: F) -> (r:
        Result<(), Error>)
        requires
            call_requires(spawn, ()),
        ensures
            final(self).spec_started() == old(self).spec_started(),
            old(self).tasks().contains_key((port_id, queue_id)) ==> r == Err::<(), Error>(
                Error::Already,
            ) && final(self).tasks() == old(self).tasks(),
            !old(self).tasks().contains_key((port_id, queue_id)) && !old(self).spec_started() ==> r
                == Err::<(), Error>(Error::NotStart) && final(self).tasks() == old(self).tasks(),
            !old(self).tasks().contains_key((port_id, queue_id)) && old(self).spec_started() ==> {
                &&& r == Ok::<(), Error>(())
                &&& exists|h: H|
                    call_ensures(spawn, (), h) && final(self).tasks() == old(self).tasks().insert(
                        (port_id, queue_id),
                        h,
                    )
            },
    {
        if self.tasks.contains_key(&(port_id, queue_id)) {
            return Err(Error::Already);
        }
        if !self.started {
            return Err(Error::NotStart);
        }
        let h = spawn();
        let _ = self.tasks.insert((port_id, queue_id), h);
        Ok(())
    }

    /// Unregisters a (port, queue) pair and hands back its task handle, to be
    /// aborted. Fails with `NotExist` when the pair is not registered.
    pub fn unregister(&mut self, port_id: u16, queue_id: u16) -> (r: Result<H, Error>)
        ensures
            final(self).spec_started() == old(self).spec_started(),
            final(self).tasks() == old(self).tasks().remove((port_id, queue_id)),
            old(self).tasks().contains_key((port_id, queue_id)) ==> r == Ok::<H, Error>(
                old(self).tasks()[(port_id, queue_id)],
            ),
            !old(self).tasks().contains_key((port_id, queue_id)) ==> r == Err::<H, Error>(
                Error::NotExist,
            ),
    {
        match self.tasks.remove(&(port_id, queue_id)) {
            Some(h) => Ok(h),
            None => Err(Error::NotExist),
        }
    }

    /// Shuts the agent down: every task handle is handed back in key order,
    /// to be aborted, and the table is emptied.
    pub fn shutdown(&mut self) -> (v: Vec<(QueueKey, H)>)
        ensures
            !final(self).spec_started(),
            final(self).tasks() == Map::<QueueKey, H>::empty(),
            v@.map_values(|e: (QueueKey, H)| e.0).to_set() == old(self).tasks().dom(),
            keys_increasing(v@.map_values(|e: (QueueKey, H)| e.0)),
            forall|i: int| 0 <= i < v@.len() ==> old(self).tasks()[#[trigger] v@[i].0] == v@[i].1,
    {
        let keys = map_keys(&self.tasks);
        let ghost start = self.tasks@;
        let mut v: Vec<(QueueKey, H)> = Vec::new();
        let mut i: usize = 0;
        assert(keys@.subrange(0, keys@.len() as int) =~= keys@);
        while i < keys.len()
            invariant
                i <= keys@.len(),
                keys@.to_set() == start.dom(),
                keys_increasing(keys@),
                self.tasks@.dom() == keys@.subrange(i as int, keys@.len() as int).to_set(),
                forall|k: QueueKey| #[trigger] self.tasks@.contains_key(k) ==> self.tasks@[k] == start[k],
                v@.len() == i,
                forall|j: int| 0 <= j < i ==> (#[trigger] v@[j]).0 == keys@[j] && v@[j].1 == start[keys@[j]],
            decreases keys@.len() - i,
        {
            let k = keys[i];
            let ghost rest = keys@.subrange(i as int, keys@.len() as int);
            assert(rest[0] == k);
            assert(rest.to_set().contains(k));
            if let Some(h) = self.tasks.remove(&k) {
                v.push((k, h));
            }
            i = i + 1;
            proof {
                let next = keys@.subrange(i as int, keys@.len() as int);
                assert(next.to_set() =~= rest.to_set().remove(k)) by {
                    assert forall|x: QueueKey| next.to_set().contains(x) implies rest.to_set().remove(k).contains(x) by {
                        let j = choose|j: int| 0 <= j < next.len() && next[j] == x;
                        assert(rest[j + 1] == x);
                        assert(key_lt(keys@[i - 1], keys@[i + j]));
                    }
                    assert forall|x: QueueKey| rest.to_set().remove(k).contains(x) implies next.to_set().contains(x) by {
                        let j = choose|j: int| 0 <= j < rest.len() && rest[j] == x;
                        assert(j != 0);
                        assert(next[j - 1] == x);
                    }
                }
            }
        }
        self.started = false;
        proof {
            assert(self.tasks@.dom() =~= Set::<QueueKey>::empty());
            assert(self.tasks@ =~= Map::<QueueKey, H>::empty());
            let ks = v@.map_values(|e: (QueueKey, H)| e.0);
            assert(ks =~= keys@);
        }
        self.tasks = BTreeMap::new();
        v
    }
}

/// How a packet enters the transmit buffer.
#[derive(Clone, Copy, Debug, PartialEq, Eq, Structural)]
pub enum TxPath {
    /// As it is: shorter than the MTU.
    Direct,
    /// Split into IP fragments; the number is how many fragments the split
    /// may produce at most.
    Fragment(u16),
}

/// How a packet of `pkt_len` bytes is buffered when `len` mbufs are queued:
/// a short packet needs one free place, a long one is split into at most
/// `pkt_len / MTU + 1` fragments and needs room for one more than that.
pub open spec fn spec_tx_plan(len: nat, pkt_len: nat) -> Result<TxPath, Error> {
    if pkt_len < ETHER_MTU {
        if len >= TX_BUF_SIZE {
            Err(Error::NoBuf)
        } else {
            Ok(TxPath::Direct)
        }
    } else {
        let exp = pkt_len / (ETHER_MTU as nat) + 1;
        if TX_BUF_SIZE < len + exp + 1 {
            Err(Error::NoBuf)
        } else {
            Ok(TxPath::Fragment(exp as u16))
        }
    }
}

/// Mbufs waiting to be sent on one port and queue, oldest first; never more
/// than `TX_BUF_SIZE` of them.
pub struct TxBuffer<T> {
    port_id: u16,
    queue_id: u16,
    mbufs: VecDeque<T>,
}

impl<T> TxBuffer<T> {
    /// The buffer holds at most `TX_BUF_SIZE` mbufs.
    #[verifier::type_invariant]
    spec fn within_capacity(&self) -> bool {
        self.mbufs@.len() <= TX_BUF_SIZE
    }
}

impl<T: Copy> TxBuffer<T> {
    /// The queued mbufs, oldest first.
    pub closed spec fn queued(&self) -> Seq<T> {
        self.mbufs@
    }

    /// The port the mbufs go to.
    pub closed spec fn spec_port_id(&self) -> u16 {
        self.port_id
    }

    /// The queue the mbufs go to.
    pub closed spec fn spec_queue_id(&self) -> u16 {
        self.queue_id
    }

    /// An empty buffer for the given port and queue.
    pub fn new(port_id: u16, queue_id: u16) -> (b: TxBuffer<T>)
        ensures
            b.queued() == Seq::<T>::empty(),
            b.spec_port_id() == port_id,
            b.spec_queue_id() == queue_id,
    {
        TxBuffer { port_id, queue_id, mbufs: VecDeque::with_capacity(TX_BUF_SIZE) }
    }

    /// The port the mbufs go to.
    pub fn port_id(&self) -> (p: u16)
        ensures
            p == self.spec_port_id(),
    {
        self.port_id
    }

    /// The queue the mbufs go to.
    pub fn queue_id(&self) -> (q: u16)
        ensures
            q == self.spec_queue_id(),
    {
        self.queue_id
    }

    /// Number of queued mbufs, at most `TX_BUF_SIZE`.
    pub fn len(&self) -> (n: usize)
        ensures
            n == self.queued().len(),
            n <= TX_BUF_SIZE,
    {
        proof {
            use_type_invariant(self);
        }
        self.mbufs.len()
    }

    /// Decides how a packet of `pkt_len` bytes enters the buffer, or why it
    /// cannot: a `Direct` packet finds a free place, and the fragments of a
    /// `Fragment(n)` packet all fit, with one place to spare.
    pub fn plan(&self, pkt_len: usize) -> (r: Result<TxPath, Error>)
        ensures
            r == spec_tx_plan(self.queued().len(), pkt_len as nat),
            r == Ok::<TxPath, Error>(TxPath::Direct) ==> self.queued().len() < TX_BUF_SIZE,
            r matches Ok(TxPath::Fragment(n)) ==> self.queued().len() + n < TX_BUF_SIZE,
    {
        proof {
            use_type_invariant(self);
        }
        let len = self.mbufs.len();
        if pkt_len < ETHER_MTU {
            if len >= TX_BUF_SIZE {
                Err(Error::NoBuf)
            } else {
                Ok(TxPath::Direct)
            }
        } else {
            let exp: usize = pkt_len / ETHER_MTU + 1;
            if TX_BUF_SIZE - len < exp + 1 {
                Err(Error::NoBuf)
            } else {
                Ok(TxPath::Fragment(exp as u16))
            }
        }
    }

    /// Queues one mbuf at the back; there must be a free place.
    pub fn push(&mut self, m: T)
        requires
            old(self).queued().len() < TX_BUF_SIZE,
        ensures
            final(self).queued() == old(self).queued().push(m),
            final(self).spec_port_id() == old(self).spec_port_id(),
            final(self).spec_queue_id() == old(self).spec_queue_id(),
    {
        let mut q: VecDeque<T> = VecDeque::new();
        std::mem::swap(&mut q, &mut self.mbufs);
        q.push_back(m);
        self.mbufs = q;
    }

    /// Takes the result of fragmenting a packet: `ret` is the fragmenting
    /// call's return value (a fragment count, or a negated error code) and
    /// `frags` the output array, which must fit in the buffer. On success the
    /// first `ret` entries of `frags`, the fragments made, are queued and
    /// their count returned; a count beyond the array is `OutOfRange`.
    pub fn accept_fragments(&mut self, ret: i32, frags: Vec<T>) -> (r: Result<usize, Error>)
        requires
            old(self).queued().len() + frags@.len() <= TX_BUF_SIZE,
        ensures
            final(self).spec_port_id() == old(self).spec_port_id(),
            final(self).spec_queue_id() == old(self).spec_queue_id(),
            ret < 0 ==> r == Err::<usize, Error>(crate::errno::spec_from_ret(ret)->Err_0)
                && final(self).queued() == old(self).queued(),
            ret >= 0 && ret > frags@.len() ==> r == Err::<usize, Error>(Error::OutOfRange)
                && final(self).queued() == old(self).queued(),
            ret >= 0 && ret <= frags@.len() ==> r == Ok::<usize, Error>(ret as usize)
                && final(self).queued() == old(self).queued() + frags@.subrange(0, ret as int),
    {
        match Error::from_ret(ret) {
            Err(e) => {
                return Err(e);
            },
            Ok(()) => {},
        }
        let nb_frags = ret as usize;
        if nb_frags > frags.len() {
            return Err(Error::OutOfRange);
        }
        let mut q: VecDeque<T> = VecDeque::new();
        std::mem::swap(&mut q, &mut self.mbufs);
        let mut i: usize = 0;
        let ghost start = q@;
        while i < nb_frags
            invariant
                i <= nb_frags <= frags@.len(),
                start.len() + frags@.len() <= TX_BUF_SIZE,
                q@ == start + frags@.subrange(0, i as int),
            decreases nb_frags - i,
        {
            q.push_back(frags[i]);
            i = i + 1;
            assert(q@ =~= start + frags@.subrange(0, i as int));
        }
        self.mbufs = q;
        Ok(nb_frags)
    }

    /// The queued mbufs, oldest first, for handing to the NIC.
    pub fn pending(&self) -> (v: Vec<T>)
        ensures
            v@ == self.queued(),
    {
        let mut v: Vec<T> = Vec::new();
        let mut i: usize = 0;
        while i < self.mbufs.len()
            invariant
                i <= self.mbufs@.len(),
                v@ == self.mbufs@.subrange(0, i as int),
            decreases self.mbufs@.len() - i,
        {
            v.push(self.mbufs[i]);
            i = i + 1;
            assert(v@ =~= self.mbufs@.subrange(0, i as int));
        }
        assert(self.mbufs@.subrange(0, i as int) =~= self.mbufs@);
        v
    }

    /// Drops the `sent` oldest mbufs, which the NIC has taken (all of them
    /// when fewer are queued).
    pub fn pop_sent(&mut self, sent: u16)
        ensures
            final(self).queued() == old(self).queued().skip(
                if sent as nat <= old(self).queued().len() {
                    sent as int
                } else {
                    old(self).queued().len() as int
                },
            ),
            final(self).spec_port_id() == old(self).spec_port_id(),
            final(self).spec_queue_id() == old(self).spec_queue_id(),
    {
        proof {
            use_type_invariant(&*self);
        }
        let mut q: VecDeque<T> = VecDeque::new();
        std::mem::swap(&mut q, &mut self.mbufs);
        let mut k: u16 = 0;
        let ghost start = q@;
        while k < sent
            invariant
                k <= sent,
                q@ == start.skip(
                    if k as nat <= start.len() {
                        k as int
                    } else {
                        start.len() as int
                    },
                ),
            decreases sent - k,
        {
            let _ = q.pop_front();
            k = k + 1;
            assert(q@ =~= start.skip(
                if k as nat <= start.len() {
                    k as int
                } else {
                    start.len() as int
                },
            ));
        }
        self.mbufs = q;
    }
}

/// Registering a queue with the receive agent and unregistering it again
/// leaves the polled set as it was.
pub proof fn lemma_rx_register_then_unregister(queues: Set<QueueKey>, k: QueueKey)
    requires
        !queues.contains(k),
    ensures
        queues.insert(k).remove(k) == queues,
        queues.insert(k).contains(k),
{
    assert(queues.insert(k).remove(k) =~= queues);
}

/// Registering a queue with the transmit agent and unregistering it again
/// hands back the handle registered and leaves the task table as it was.
pub proof fn lemma_tx_register_then_unregister<H>(tasks: Map<QueueKey, H>, k: QueueKey, h: H)
    requires
        !tasks.contains_key(k),
    ensures
        tasks.insert(k, h).contains_key(k),
        tasks.insert(k, h)[k] == h,
        tasks.insert(k, h).remove(k) == tasks,
{
    assert(tasks.insert(k, h).remove(k) =~= tasks);
}

/// A frame classified as IPv4 or IPv6 holds its whole Ethernet and IP
/// headers, and gets an L4 length exactly when it carries UDP.
pub proof fn lemma_parsed_frame_is_long_enough(frame: Seq<u8>)
    requires
        spec_parse_ether(frame) is Some,
    ensures
        ({
            let info = spec_parse_ether(frame)->Some_0;
            &&& info.ether_type == ETHER_TYPE_IPV4 ==> frame.len() >= ETHER_HDR_LEN + IPV4_HDR_LEN
            &&& info.ether_type == ETHER_TYPE_IPV6 ==> frame.len() >= ETHER_HDR_LEN + IPV6_HDR_LEN
            &&& info.ether_type == ETHER_TYPE_IPV4 || info.ether_type == ETHER_TYPE_IPV6
            &&& (info.l4_len is Some <==> info.proto_id == IP_NEXT_PROTO_UDP)
        }),
{
}

/// Mbufs leave the transmit buffer in the order they entered it: after
/// queuing `m` behind `queued` and sending everything before it, `m` is
/// next.
pub proof fn lemma_tx_buffer_fifo<T>(queued: Seq<T>, m: T)
    ensures
        queued.push(m).skip(queued.len() as int) == seq![m],
{
    assert(queued.push(m).skip(queued.len() as int) =~= seq![m]);
}

/// Only IPv4 is delivered: a frame whose ether type (bytes 12 and 13) is not
/// `0x0800`, or that is too short for an Ethernet and an IPv4 header, is
/// dropped. An IPv4 frame is handed to UDP exactly when its protocol byte
/// (byte 23) is UDP and neither its more-fragments flag nor its fragment
/// offset (the low 14 bits of bytes 20 and 21) is set; when one of them is
/// set it goes to reassembly, flagged for UDP when its protocol is UDP.
pub proof fn lemma_rx_plan_of_frame(frame: Seq<u8>)
    ensures
        !(frame.len() >= 34 && frame[12] == 8 && frame[13] == 0) ==> spec_handle_ether(frame)
            == RxPlan::Drop,
        spec_handle_ether(frame) == RxPlan::DeliverUdp <==> {
            &&& frame.len() >= 34
            &&& frame[12] == 8 && frame[13] == 0
            &&& frame[23] == 17
            &&& frame[20] % 64 == 0 && frame[21] == 0
        },
        spec_handle_ether(frame) is Reassemble <==> {
            &&& frame.len() >= 34
            &&& frame[12] == 8 && frame[13] == 0
            &&& !(frame[20] % 64 == 0 && frame[21] == 0)
        },
        spec_handle_ether(frame) matches RxPlan::Reassemble(udp) ==> udp == (frame[23] == 17),
{
    if frame.len() >= 14 {
        let a = frame[12] as int;
        let b = frame[13] as int;
        assert(a * 256 + b == 0x0800 <==> (a == 8 && b == 0)) by (nonlinear_arith)
            requires
                0 <= a < 256,
                0 <= b < 256,
        ;
    }
    if frame.len() >= 34 {
        let hdr = frame.subrange(14, frame.len() as int);
        assert(hdr[6] == frame[20] && hdr[7] == frame[21]);
        let c = frame[20] as int;
        let d = frame[21] as int;
        assert((c * 256 + d) % 0x4000 == (c % 64) * 256 + d) by (nonlinear_arith)
            requires
                0 <= c < 256,
                0 <= d < 256,
        ;
    }
}

} // verus!
