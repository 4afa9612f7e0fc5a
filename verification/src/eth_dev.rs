//! Sizing and configuration decisions made when an Ethernet device is set
//! up.

use vstd::prelude::*;
use crate::errno::Error;

verus! {

/// Offload flag: the NIC may free mbufs quickly after sending.
pub const TX_OFFLOAD_MBUF_FAST_FREE: u64 = 0x0001_0000;

/// Smallest RX mempool.
pub const MIN_RX_POOL: u32 = 8192;

/// Descriptors asked for each RX and TX ring before DPDK adjusts them.
pub const DEFAULT_RING_DESC: u16 = 1024;

/// Size of the mempool of each TX queue.
pub const TX_POOL_SIZE: u32 = 1024;

/// Size of the mempool of an RX queue: `ports * (rx descriptors + tx
/// descriptors + 32)` saturating at `u32::MAX`, and at least 8192.
pub open spec fn spec_rx_pool_size(nb_ports: u32, n_rxd: u16, n_txd: u16) -> u32 {
    let per_port = n_rxd + n_txd + 32;
    let total = nb_ports * per_port;
    let sat: u32 = if total > u32::MAX { u32::MAX } else { total as u32 };
    if sat < MIN_RX_POOL { MIN_RX_POOL } else { sat }
}

/// Size of the mempool of an RX queue.
pub fn rx_pool_size(nb_ports: u32, n_rxd: u16, n_txd: u16) -> (n: u32)
    ensures
        n == spec_rx_pool_size(nb_ports, n_rxd, n_txd),
{
    let per_port: u32 = n_rxd as u32 + n_txd as u32 + 32;
    assert(nb_ports as u64 * per_port as u64 <= u32::MAX as u64 * 0x2_0020) by (nonlinear_arith)
        requires
            nb_ports <= u32::MAX,
            per_port <= 0x2_0020,
    ;
    let wide: u64 = nb_ports as u64 * per_port as u64;
    let total: u32 = if wide > u32::MAX as u64 { u32::MAX } else { wide as u32 };
    if total < MIN_RX_POOL {
        MIN_RX_POOL
    } else {
        total
    }
}

/// TX offloads to enable: fast mbuf freeing when the device supports it.
pub fn tx_offloads(tx_offload_capa: u64) -> (r: u64)
    ensures
        r == (if tx_offload_capa & TX_OFFLOAD_MBUF_FAST_FREE != 0 {
            TX_OFFLOAD_MBUF_FAST_FREE
        } else {
            0
        }),
{
    if tx_offload_capa & TX_OFFLOAD_MBUF_FAST_FREE != 0 {
        TX_OFFLOAD_MBUF_FAST_FREE
    } else {
        0
    }
}

/// The NUMA socket a device's queues are set up on, as DPDK reports it: a
/// negative value means the port is invalid (`InvalidArg`).
pub fn check_socket_id(socket_id: i32) -> (r: Result<i32, Error>)
    ensures
        socket_id < 0 ==> r == Err::<i32, Error>(Error::InvalidArg),
        socket_id >= 0 ==> r == Ok::<i32, Error>(socket_id),
{
    if socket_id < 0 {
        Err(Error::InvalidArg)
    } else {
        Ok(socket_id)
    }
}

/// Number of queues to set up: what the device offers, at most the limit.
pub fn queue_count(dev_max: u16, max_queues: u16) -> (n: u16)
    ensures
        n == (if dev_max <= max_queues { dev_max } else { max_queues }),
{
    if dev_max <= max_queues {
        dev_max
    } else {
        max_queues
    }
}

/// The RX pool holds, for every port, room for all its RX and TX
/// descriptors plus a burst of 32: `max(8192, min(u32::MAX, ports * (rx +
/// tx + 32)))`. RX and TX descriptors count alike, and each extra descriptor
/// adds one mbuf per port until the size saturates.
pub proof fn lemma_rx_pool_size(nb_ports: u32, n_rxd: u16, n_txd: u16)
    ensures
        ({
            let want: int = nb_ports as int * (n_rxd as int + n_txd as int + 32);
            let capped: int = if want > u32::MAX as int { u32::MAX as int } else { want };
            spec_rx_pool_size(nb_ports, n_rxd, n_txd) as int == if capped < 8192 { 8192 } else { capped }
        }),
        spec_rx_pool_size(nb_ports, n_rxd, n_txd) == spec_rx_pool_size(nb_ports, n_txd, n_rxd),
        spec_rx_pool_size(nb_ports, n_rxd, n_txd) >= MIN_RX_POOL,
        n_txd < u16::MAX && nb_ports as int * (n_rxd as int + n_txd as int + 33) <= u32::MAX
            && nb_ports as int * (n_rxd as int + n_txd as int + 32) >= 8192 ==> spec_rx_pool_size(
            nb_ports,
            n_rxd,
            (n_txd + 1) as u16,
        ) as int == spec_rx_pool_size(nb_ports, n_rxd, n_txd) as int + nb_ports as int,
{
    assert(nb_ports as int * (n_rxd as int + n_txd as int + 33) == nb_ports as int * (n_rxd as int
        + n_txd as int + 32) + nb_ports as int) by (nonlinear_arith);
    assert(nb_ports as int * (n_rxd as int + n_txd as int + 32) == nb_ports as int * (n_txd as int
        + n_rxd as int + 32));
}

} // verus!
