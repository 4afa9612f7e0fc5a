//! Generic network-layer packet: protocol kinds and the fragments of data
//! that make up the packet.

use vstd::prelude::*;
use bytes::BytesMut;
use crate::bufs::{bytes_mut_as_slice, bytes_mut_contents, bytes_mut_from_slice};
use crate::proto::{L3Protocol, L4Protocol, ETHER_HDR_LEN, PTYPE_L2_ETHER, PTYPE_L3_MASK, PTYPE_L4_MASK};

verus! {

broadcast use vstd::seq_lib::group_seq_properties;

/// A packet without its L2 header: its L3 and L4 protocols and the fragments
/// of its data, in order.
#[derive(Debug)]
pub struct Packet {
    /// L3 (network layer) protocol.
    pub l3protocol: L3Protocol,
    /// L4 (transport layer) protocol.
    pub l4protocol: L4Protocol,
    frags: Vec<BytesMut>,
}

/// What an mbuf chain built from a packet holds: its data, split over the
/// segments, and the packet-type and header-length fields DPDK reads when
/// sending it.
#[derive(Debug)]
pub struct MbufImage {
    /// The packet's bytes, all fragments one after the other.
    pub data: Vec<u8>,
    /// The data of each mbuf of the chain, in chain order.
    pub segments: Vec<Vec<u8>>,
    /// Packet-type bits: Ethernet, and the L3 and L4 protocols.
    pub packet_type: u32,
    /// L2 header length.
    pub l2_len: u16,
    /// L3 header length.
    pub l3_len: u16,
    /// L4 header length.
    pub l4_len: u16,
}

/// `data` cut into segments of `room` bytes: every segment but the last is
/// full, and the last holds the rest (all of `data` when it fits in one
/// segment, so empty data gives one empty segment).
pub open spec fn spec_chunks(data: Seq<u8>, room: nat) -> Seq<Seq<u8>>
    decreases data.len(),
{
    if room == 0 || data.len() <= room {
        seq![data]
    } else {
        seq![data.take(room as int)] + spec_chunks(data.skip(room as int), room)
    }
}

/// Cutting `data` into segments of `room` bytes loses and reorders nothing:
/// the segments one after the other are `data`. There is at least one
/// segment, none holds more than `room` bytes, every one but the last is
/// full, and the last is empty only when `data` is.
pub proof fn lemma_chunks(data: Seq<u8>, room: nat)
    requires
        room > 0,
    ensures
        spec_chunks(data, room).flatten() == data,
        spec_chunks(data, room).len() > 0,
        forall|i: int|
            0 <= i < spec_chunks(data, room).len() ==> (#[trigger] spec_chunks(data, room)[i]).len()
                <= room,
        forall|i: int|
            0 <= i < spec_chunks(data, room).len() - 1 ==> (#[trigger] spec_chunks(data, room)[i]).len()
                == room,
        data.len() > 0 ==> spec_chunks(data, room).last().len() > 0,
    decreases data.len(),
{
    let c = spec_chunks(data, room);
    if data.len() <= room {
        c.lemma_flatten_one_element();
    } else {
        let rest = data.skip(room as int);
        lemma_chunks(rest, room);
        let rc = spec_chunks(rest, room);
        assert(c == seq![data.take(room as int)] + rc);
        assert(c.drop_first() =~= rc);
        assert(c.flatten() == data.take(room as int) + rc.flatten());
        assert(data.take(room as int) + rest =~= data);
        assert forall|i: int| 0 <= i < c.len() implies (#[trigger] c[i]).len() <= room by {
            if i > 0 {
                assert(c[i] == rc[i - 1]);
            }
        }
        assert forall|i: int| 0 <= i < c.len() - 1 implies (#[trigger] c[i]).len() == room by {
            if i > 0 {
                assert(c[i] == rc[i - 1]);
            }
        }
        assert(c.last() == rc.last());
    }
}

/// The bytes of `frags`, one fragment after the other.
pub(crate) fn concat_fragments(frags: &Vec<BytesMut>) -> (data: Vec<u8>)
    requires
        frags@.map_values(|b: BytesMut| bytes_mut_contents(b)).flatten().len() <= usize::MAX,
    ensures
        data@ == frags@.map_values(|b: BytesMut| bytes_mut_contents(b)).flatten(),
{
    let ghost all = frags@.map_values(|b: BytesMut| bytes_mut_contents(b));
    let mut data: Vec<u8> = Vec::new();
    let mut i: usize = 0;
    while i < frags.len()
        invariant
            i <= frags@.len(),
            all == frags@.map_values(|b: BytesMut| bytes_mut_contents(b)),
            all.flatten().len() <= usize::MAX,
            data@ == all.subrange(0, i as int).flatten(),
        decreases frags@.len() - i,
    {
        let frag = bytes_mut_as_slice(&frags[i]);
        proof {
            assert(all.subrange(0, i + 1) =~= all.subrange(0, i as int).push(frag@));
            lemma_prefix_flatten_len(all, i as int + 1);
            all.subrange(0, i as int).lemma_flatten_push(frag@);
        }
        let mut j: usize = 0;
        let ghost before = data@;
        while j < frag.len()
            invariant
                j <= frag@.len(),
                data@ == before + frag@.subrange(0, j as int),
                before.len() + frag@.len() <= usize::MAX,
            decreases frag@.len() - j,
        {
            data.push(frag[j]);
            j = j + 1;
            assert(data@ =~= before + frag@.subrange(0, j as int));
        }
        assert(frag@.subrange(0, j as int) =~= frag@);
        i = i + 1;
    }
    assert(all.subrange(0, i as int) =~= all);
    data
}

/// Copies `data[start..end]`.
fn copy_range(data: &Vec<u8>, start: usize, end: usize) -> (v: Vec<u8>)
    requires
        start <= end <= data@.len(),
    ensures
        v@ == data@.subrange(start as int, end as int),
{
    let mut v: Vec<u8> = Vec::new();
    let mut k: usize = start;
    while k < end
        invariant
            start <= k <= end <= data@.len(),
            v@ == data@.subrange(start as int, k as int),
        decreases end - k,
    {
        v.push(data[k]);
        k = k + 1;
        assert(v@ =~= data@.subrange(start as int, k as int));
    }
    v
}

/// Cuts `data` into segments of `room` bytes, as `spec_chunks` says.
pub fn chunks(data: &Vec<u8>, room: usize) -> (segs: Vec<Vec<u8>>)
    requires
        room > 0,
    ensures
        segs@.map_values(|s: Vec<u8>| s@) == spec_chunks(data@, room as nat),
{
    let mut segs: Vec<Vec<u8>> = Vec::new();
    let mut pos: usize = 0;
    while data.len() - pos > room
        invariant
            room > 0,
            pos <= data@.len(),
            segs@.map_values(|s: Vec<u8>| s@) + spec_chunks(data@.skip(pos as int), room as nat)
                == spec_chunks(data@, room as nat),
        decreases data@.len() - pos,
    {
        let ghost rest = data@.skip(pos as int);
        let ghost before = segs@.map_values(|s: Vec<u8>| s@);
        let end = pos + room;
        let seg = copy_range(data, pos, end);
        assert(seg@ =~= rest.take(room as int));
        assert(rest.skip(room as int) =~= data@.skip(end as int));
        segs.push(seg);
        assert(segs@.map_values(|s: Vec<u8>| s@) =~= before + seq![rest.take(room as int)]);
        assert(before + spec_chunks(rest, room as nat) == before + (seq![rest.take(room as int)]
            + spec_chunks(data@.skip(end as int), room as nat)));
        assert(before + (seq![rest.take(room as int)] + spec_chunks(data@.skip(end as int), room as nat))
            =~= (before + seq![rest.take(room as int)]) + spec_chunks(data@.skip(end as int), room as nat));
        pos = end;
    }
    let ghost rest = data@.skip(pos as int);
    let ghost before = segs@.map_values(|s: Vec<u8>| s@);
    let seg = copy_range(data, pos, data.len());
    assert(seg@ =~= rest);
    segs.push(seg);
    assert(segs@.map_values(|s: Vec<u8>| s@) =~= before + seq![rest]);
    segs
}

impl Packet {
    /// The L3 protocol.
    pub closed spec fn l3(&self) -> L3Protocol {
        self.l3protocol
    }

    /// The L4 protocol.
    pub closed spec fn l4(&self) -> L4Protocol {
        self.l4protocol
    }

    /// The fragments' bytes, in order.
    pub closed spec fn fragments(&self) -> Seq<Seq<u8>> {
        self.frags@.map_values(|b: BytesMut| bytes_mut_contents(b))
    }

    /// A packet of the given protocols with no fragment.
    pub fn new(l3protocol: L3Protocol, l4protocol: L4Protocol) -> (p: Packet)
        ensures
            p.l3() == l3protocol,
            p.l4() == l4protocol,
            p.fragments() == Seq::<Seq<u8>>::empty(),
    {
        let p = Packet { frags: Vec::new(), l3protocol, l4protocol };
        assert(p.fragments() =~= Seq::<Seq<u8>>::empty());
        p
    }

    /// Appends a fragment.
    pub fn append(&mut self, frag: BytesMut)
        ensures
            final(self).fragments() == old(self).fragments().push(bytes_mut_contents(frag)),
            final(self).l3() == old(self).l3(),
            final(self).l4() == old(self).l4(),
    {
        self.frags.push(frag);
        assert(self.fragments() =~= old(self).fragments().push(bytes_mut_contents(frag)));
    }

    /// Number of fragments.
    pub fn frag_count(&self) -> (n: usize)
        ensures
            n == self.fragments().len(),
    {
        self.frags.len()
    }

    /// The bytes of fragment `i`.
    pub fn frag(&self, i: usize) -> (s: &[u8])
        requires
            i < self.fragments().len(),
        ensures
            s@ == self.fragments()[i as int],
    {
        bytes_mut_as_slice(&self.frags[i])
    }

    /// Builds a packet from what an mbuf holds: its packet-type bits, whose L3
    /// and L4 parts must name known protocols, and the data of each of its
    /// segments, which become the fragments.
    pub fn from_mbuf(packet_type: u32, segments: &Vec<Vec<u8>>) -> (p: Packet)
        requires
            L3Protocol::is_known_ptype(packet_type & PTYPE_L3_MASK),
            L4Protocol::is_known_ptype(packet_type & PTYPE_L4_MASK),
        ensures
            p.l3() == L3Protocol::spec_from_ptype(packet_type & PTYPE_L3_MASK),
            p.l4() == L4Protocol::spec_from_ptype(packet_type & PTYPE_L4_MASK),
            p.fragments() == segments@.map_values(|s: Vec<u8>| s@),
    {
        let l3protocol = L3Protocol::from_ptype(packet_type & PTYPE_L3_MASK);
        let l4protocol = L4Protocol::from_ptype(packet_type & PTYPE_L4_MASK);
        let mut frags: Vec<BytesMut> = Vec::new();
        let mut i: usize = 0;
        while i < segments.len()
            invariant
                i <= segments@.len(),
                frags@.len() == i,
                forall|k: int| 0 <= k < i ==> #[trigger] bytes_mut_contents(frags@[k]) == segments@[k]@,
            decreases segments@.len() - i,
        {
            let b = bytes_mut_from_slice(segments[i].as_slice());
            frags.push(b);
            i = i + 1;
        }
        assert(frags@.map_values(|b: BytesMut| bytes_mut_contents(b)) =~= segments@.map_values(
            |s: Vec<u8>| s@,
        ));
        Packet { l3protocol, l4protocol, frags }
    }

    /// Total number of bytes in the fragments.
    pub open spec fn spec_total_len(&self) -> nat {
        self.fragments().flatten().len()
    }

    /// Builds the content of the mbuf chain that carries this packet, each
    /// mbuf having a data room of `room` bytes: the fragments' bytes one
    /// after the other, cut into segments of `room` bytes (every one but the
    /// last full), the packet type `Ethernet | L3 | L4`, and the header
    /// lengths.
    pub fn into_mbuf(&self, room: usize) -> (m: MbufImage)
        requires
            room > 0,
            self.spec_total_len() <= usize::MAX,
        ensures
            m.data@ == self.fragments().flatten(),
            m.segments@.map_values(|s: Vec<u8>| s@) == spec_chunks(self.fragments().flatten(), room as nat),
            m.segments@.map_values(|s: Vec<u8>| s@).flatten() == self.fragments().flatten(),
            m.packet_type == PTYPE_L2_ETHER | self.l3().spec_ptype()
                | self.l4().spec_ptype(),
            m.l2_len == ETHER_HDR_LEN,
            m.l3_len == self.l3().spec_length(),
            m.l4_len == self.l4().spec_length(),
    {
        let data = concat_fragments(&self.frags);
        let segments = chunks(&data, room);
        proof {
            lemma_chunks(data@, room as nat);
        }
        MbufImage {
            data,
            segments,
            packet_type: PTYPE_L2_ETHER | self.l3protocol.ptype() | self.l4protocol.ptype(),
            l2_len: ETHER_HDR_LEN,
            l3_len: self.l3protocol.length(),
            l4_len: self.l4protocol.length(),
        }
    }
}

/// A prefix of the fragments holds no more bytes than all of them.
proof fn lemma_prefix_flatten_len(frags: Seq<Seq<u8>>, k: int)
    requires
        0 <= k <= frags.len(),
    ensures
        frags.subrange(0, k).flatten().len() <= frags.flatten().len(),
    decreases frags.len() - k,
{
    if k == frags.len() {
        assert(frags.subrange(0, k) =~= frags);
    } else {
        lemma_prefix_flatten_len(frags, k + 1);
        assert(frags.subrange(0, k + 1) =~= frags.subrange(0, k).push(frags[k]));
        frags.subrange(0, k).lemma_flatten_push(frags[k]);
    }
}

/// The packet type an mbuf built from a packet carries gives the packet's
/// protocols back: a packet read from that mbuf has the same L3 and L4
/// protocols.
pub proof fn lemma_packet_type_round_trip(l3: L3Protocol, l4: L4Protocol)
    ensures
        L3Protocol::is_known_ptype((PTYPE_L2_ETHER | l3.spec_ptype() | l4.spec_ptype()) & PTYPE_L3_MASK),
        L4Protocol::is_known_ptype((PTYPE_L2_ETHER | l3.spec_ptype() | l4.spec_ptype()) & PTYPE_L4_MASK),
        L3Protocol::spec_from_ptype((PTYPE_L2_ETHER | l3.spec_ptype() | l4.spec_ptype()) & PTYPE_L3_MASK) == l3,
        L4Protocol::spec_from_ptype((PTYPE_L2_ETHER | l3.spec_ptype() | l4.spec_ptype()) & PTYPE_L4_MASK) == l4,
{
    let a = l3.spec_ptype();
    let b = l4.spec_ptype();
    assert(((1u32 | a | b) & 0xf0u32) == a && ((1u32 | a | b) & 0xf00u32) == b) by (bit_vector)
        requires
            a == 0u32 || a == 0x10u32 || a == 0x40u32,
            b == 0u32 || b == 0x100u32 || b == 0x200u32,
    ;
}

} // verus!
