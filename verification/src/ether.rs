//! Ethernet packets.

use vstd::prelude::*;
use bytes::BytesMut;
use crate::bufs::{bytes_mut_as_slice, bytes_mut_contents, bytes_mut_from_slice, bytes_mut_with_capacity};
use crate::packet::{chunks, concat_fragments, lemma_chunks, spec_chunks};
use crate::proto::ETHER_HDR_LEN;

verus! {

/// An Ethernet (MAC) address.
#[derive(Clone, Copy, Debug)]
pub struct EtherAddr {
    pub addr_bytes: [u8; 6],
}

/// An Ethernet packet: its fragments of data, header first.
#[derive(Debug)]
pub struct EthPacket {
    frags: Vec<BytesMut>,
}

impl EthPacket {
    /// The fragments' bytes, in order.
    pub closed spec fn fragments(&self) -> Seq<Seq<u8>> {
        self.frags@.map_values(|b: BytesMut| bytes_mut_contents(b))
    }

    /// An Ethernet packet with one fragment that has room reserved for the
    /// Ethernet header and holds no bytes: the addresses and the protocol
    /// are not part of its data.
    pub fn new(src: EtherAddr, dst: EtherAddr, protocol: u16) -> (p: EthPacket)
        ensures
            p.fragments() == seq![Seq::<u8>::empty()],
    {
        let data = bytes_mut_with_capacity(ETHER_HDR_LEN as usize);
        let mut frags: Vec<BytesMut> = Vec::new();
        frags.push(data);
        let p = EthPacket { frags };
        assert(p.fragments() =~= seq![Seq::<u8>::empty()]);
        p
    }

    /// Number of fragments.
    pub fn frag_count(&self) -> (n: usize)
        ensures
            n == self.fragments().len(),
    {
        self.frags.len()
    }

    /// The bytes of fragment `i`.
    pub fn frag(&self, i: usize) -> (s: &[u8])
        requires
            i < self.fragments().len(),
        ensures
            s@ == self.fragments()[i as int],
    {
        bytes_mut_as_slice(&self.frags[i])
    }

    /// Builds a packet from the data of each segment of an mbuf, one fragment
    /// per segment.
    pub fn from_mbuf(segments: &Vec<Vec<u8>>) -> (p: EthPacket)
        ensures
            p.fragments() == segments@.map_values(|s: Vec<u8>| s@),
    {
        let mut frags: Vec<BytesMut> = Vec::new();
        let mut i: usize = 0;
        while i < segments.len()
            invariant
                i <= segments@.len(),
                frags@.len() == i,
                forall|k: int| 0 <= k < i ==> #[trigger] bytes_mut_contents(frags@[k]) == segments@[k]@,
            decreases segments@.len() - i,
        {
            frags.push(bytes_mut_from_slice(segments[i].as_slice()));
            i = i + 1;
        }
        let p = EthPacket { frags };
        assert(p.fragments() =~= segments@.map_values(|s: Vec<u8>| s@));
        p
    }

    /// The data of the mbuf chain carrying this packet, each mbuf having a
    /// data room of `room` bytes: the fragments' bytes one after the other,
    /// cut into segments of `room` bytes (every one but the last full).
    pub fn into_mbuf(&self, room: usize) -> (segments: Vec<Vec<u8>>)
        requires
            room > 0,
            self.fragments().flatten().len() <= usize::MAX,
        ensures
            segments@.map_values(|s: Vec<u8>| s@) == spec_chunks(self.fragments().flatten(), room as nat),
            segments@.map_values(|s: Vec<u8>| s@).flatten() == self.fragments().flatten(),
    {
        let data = concat_fragments(&self.frags);
        proof {
            lemma_chunks(data@, room as nat);
        }
        chunks(&data, room)
    }
}

} // verus!
