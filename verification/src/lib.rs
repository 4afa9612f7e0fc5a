//! Verified core of an asynchronous DPDK binding: error codes, protocol
//! numbers, frame classification, transmit buffering, socket and port tables,
//! device tables and EAL argument building.

use vstd::prelude::*;

pub mod errno;
pub mod inet;
pub mod sock;
pub mod proto;
pub mod protocol;
pub mod agent;
pub mod net_dev;
pub mod eal;
pub mod bufs;
pub mod packet;
pub mod ether;
pub mod lcore;
pub mod mempool;
pub mod mbuf;
pub mod eth_dev;
pub mod memory;

verus! {

/// Result type used throughout the library.
pub type Result<T> = core::result::Result<T, errno::Error>;

} // verus!
