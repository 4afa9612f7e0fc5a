# async_dpdk

An asynchronous DPDK binding whose decision-making core is verified with
Verus.

- `src/` is the verified library: error codes (`errno`), protocol numbers
  (`proto`), frame classification and the RX/TX agents' queue tables and
  transmit buffer (`agent`), socket descriptors and port bindings (`sock`),
  the table of probed devices (`net_dev`), EAL argument building (`eal`),
  packets and Ethernet packets (`packet`, `ether`, with `bufs` declaring the
  `bytes::BytesMut` buffers they hold), and small pieces of arithmetic for
  mbufs, mempools, devices and allocation (`mbuf`, `mempool`, `eth_dev`,
  `memory`, `lcore`, `inet`).
- `app/` holds the calls into DPDK (`dpdk_sys`), the threads and the tokio
  runtime of the agents, and the process-wide tables behind locks; it hands
  plain values to the library and carries out what the library decides.
- `tests/` exercises the library's public functions.
