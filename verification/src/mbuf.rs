//! What the library reads of an mbuf's header, and the arithmetic on it.

use vstd::prelude::*;
use crate::errno::Error;

verus! {

/// Header fields of an mbuf: number of segments, length of the whole packet,
/// and length of this segment's data.
#[derive(Clone, Copy, Debug, PartialEq, Eq, Structural)]
pub struct MbufMeta {
    pub nb_segs: u16,
    pub pkt_len: u32,
    pub data_len: u16,
}

impl MbufMeta {
    /// Whether the packet is one segment.
    pub fn is_contiguous(&self) -> (r: bool)
        ensures
            r == (self.nb_segs == 1),
    {
        self.nb_segs == 1
    }

    /// The number of segments and the packet length that the second segment
    /// takes over when the first is popped off: one segment and the first
    /// segment's data fewer, not below zero.
    pub fn after_pop(&self) -> (r: (u16, u32))
        ensures
            r.0 == (if self.nb_segs >= 1 { self.nb_segs - 1 } else { 0 }),
            r.1 == (if self.pkt_len >= self.data_len { self.pkt_len - self.data_len } else { 0 }),
    {
        let nb_segs = if self.nb_segs >= 1 { self.nb_segs - 1 } else { 0 };
        let pkt_len = if self.pkt_len >= self.data_len as u32 {
            self.pkt_len - self.data_len as u32
        } else {
            0
        };
        (nb_segs, pkt_len)
    }
}

/// A length for mbuf data operations, which DPDK takes as a `u16`;
/// `InvalidArg` when it does not fit.
pub fn seg_len(len: usize) -> (r: Result<u16, Error>)
    ensures
        len <= u16::MAX ==> r == Ok::<u16, Error>(len as u16),
        len > u16::MAX ==> r == Err::<u16, Error>(Error::InvalidArg),
{
    if len <= u16::MAX as usize {
        Ok(len as u16)
    } else {
        Err(Error::InvalidArg)
    }
}

} // verus!
