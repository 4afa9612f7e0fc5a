use async_dpdk::agent::{
    handle_ether, ipv4_is_fragmented, parse_ether_proto, EtherInfo, RxAgent, RxPlan, TxAgent,
    TxBuffer, TxPath,
};
use async_dpdk::errno::Error;

fn frame(ether_type: u16, payload_len: usize) -> Vec<u8> {
    let mut f = vec![0u8; 14 + payload_len];
    f[12] = (ether_type >> 8) as u8;
    f[13] = ether_type as u8;
    f
}

#[test]
fn parses_ipv4_udp() {
    let mut f = frame(0x0800, 28);
    f[14 + 9] = 0x11;
    assert_eq!(
        parse_ether_proto(&f),
        Some(EtherInfo { ether_type: 0x0800, proto_id: 0x11, l3_len: 20, l4_len: Some(8) })
    );
    assert_eq!(handle_ether(&f), RxPlan::DeliverUdp);
}

#[test]
fn parses_ipv6_tcp() {
    let mut f = frame(0x86DD, 40);
    f[14 + 6] = 6;
    assert_eq!(
        parse_ether_proto(&f),
        Some(EtherInfo { ether_type: 0x86DD, proto_id: 6, l3_len: 40, l4_len: None })
    );
    assert_eq!(handle_ether(&f), RxPlan::Drop);
}

#[test]
fn rejects_short_and_foreign_frames() {
    assert_eq!(parse_ether_proto(&[0u8; 13]), None);
    assert_eq!(parse_ether_proto(&frame(0x0800, 19)), None);
    assert_eq!(parse_ether_proto(&frame(0x86DD, 39)), None);
    assert_eq!(parse_ether_proto(&frame(0x0806, 64)), None);
    assert_eq!(handle_ether(&frame(0x0806, 64)), RxPlan::Drop);
}

#[test]
fn fragments_go_to_reassembly() {
    let mut f = frame(0x0800, 20);
    f[14 + 9] = 0x11;
    f[14 + 6] = 0x20; // more fragments
    assert!(ipv4_is_fragmented(&f[14..]));
    assert_eq!(handle_ether(&f), RxPlan::Reassemble(true));
    f[14 + 6] = 0x00;
    f[14 + 7] = 0x10; // offset
    f[14 + 9] = 6;
    assert_eq!(handle_ether(&f), RxPlan::Reassemble(false));
    f[14 + 6] = 0x40; // don't-fragment only
    f[14 + 7] = 0;
    assert!(!ipv4_is_fragmented(&f[14..]));
    assert_eq!(handle_ether(&f), RxPlan::Drop);
}

#[test]
fn test_rx_agent() {
    let mut rx_agent = RxAgent::start();
    rx_agent.register(0, 0).unwrap();
    assert!(matches!(rx_agent.register(0, 0).unwrap_err(), Error::Already));
    rx_agent.unregister(0, 0).unwrap();
    assert!(matches!(rx_agent.unregister(0, 0).unwrap_err(), Error::NotExist));
    rx_agent.stop();
}

#[test]
fn rx_agent_stopped_refuses() {
    let mut rx_agent = RxAgent::start();
    rx_agent.register(1, 2).unwrap();
    rx_agent.stop();
    assert!(!rx_agent.is_running());
    assert_eq!(rx_agent.register(3, 4), Err(Error::NotStart));
    assert_eq!(rx_agent.unregister(1, 2), Err(Error::NotStart));
}

#[test]
fn rx_agent_polls_in_key_order() {
    let mut rx_agent = RxAgent::start();
    rx_agent.register(1, 0).unwrap();
    rx_agent.register(0, 3).unwrap();
    rx_agent.register(0, 1).unwrap();
    rx_agent.register(2, 0).unwrap();
    assert_eq!(rx_agent.queue_list(), vec![(0, 1), (0, 3), (1, 0), (2, 0)]);
    rx_agent.unregister(0, 3).unwrap();
    assert_eq!(rx_agent.queue_list(), vec![(0, 1), (1, 0), (2, 0)]);
}

#[test]
fn test_tx_agent() {
    let mut tx_agent: TxAgent<u32> = TxAgent::start();
    tx_agent.register(0, 0, || 7).unwrap();
    assert!(matches!(tx_agent.register(0, 0, || 8).unwrap_err(), Error::Already));
    assert_eq!(tx_agent.unregister(0, 0), Ok(7));
    assert!(matches!(tx_agent.unregister(0, 0).unwrap_err(), Error::NotExist));
}

#[test]
fn tx_agent_shutdown_hands_back_tasks() {
    let mut tx_agent: TxAgent<u32> = TxAgent::start();
    tx_agent.register(1, 1, || 11).unwrap();
    tx_agent.register(0, 5, || 5).unwrap();
    let tasks = tx_agent.shutdown();
    assert_eq!(tasks, vec![((0, 5), 5), ((1, 1), 11)]);
    assert_eq!(tx_agent.register(2, 2, || 1), Err(Error::NotStart));
    assert_eq!(tx_agent.unregister(1, 1), Err(Error::NotExist));
}

#[test]
fn tx_buffer_plans() {
    let mut buf: TxBuffer<u64> = TxBuffer::new(3, 4);
    assert_eq!(buf.port_id(), 3);
    assert_eq!(buf.queue_id(), 4);
    assert_eq!(buf.plan(100), Ok(TxPath::Direct));
    assert_eq!(buf.plan(1499), Ok(TxPath::Direct));
    assert_eq!(buf.plan(1500), Ok(TxPath::Fragment(2)));
    assert_eq!(buf.plan(4000), Ok(TxPath::Fragment(3)));
    // room for 1024 - 1 fragments plus one
    assert_eq!(buf.plan(1500 * 1022), Ok(TxPath::Fragment(1023)));
    assert_eq!(buf.plan(1500 * 1023), Err(Error::NoBuf));
    for i in 0..1023u64 {
        buf.push(i);
    }
    assert_eq!(buf.plan(10), Ok(TxPath::Direct));
    assert_eq!(buf.plan(1500), Err(Error::NoBuf));
    buf.push(1023);
    assert_eq!(buf.len(), 1024);
    // a full buffer takes no more packet
    assert_eq!(buf.plan(10), Err(Error::NoBuf));
    assert_eq!(buf.plan(1500), Err(Error::NoBuf));
}

#[test]
fn tx_buffer_is_fifo() {
    let mut buf: TxBuffer<u64> = TxBuffer::new(0, 0);
    buf.push(1);
    buf.push(2);
    // only the fragments made are queued, not the unused slots
    assert_eq!(buf.accept_fragments(2, vec![3, 4, 5]), Ok(2));
    assert_eq!(buf.pending(), vec![1, 2, 3, 4]);
    buf.pop_sent(2);
    assert_eq!(buf.pending(), vec![3, 4]);
    buf.pop_sent(10);
    assert_eq!(buf.len(), 0);
}

#[test]
fn tx_buffer_fragment_errors() {
    let mut buf: TxBuffer<u64> = TxBuffer::new(0, 0);
    assert_eq!(buf.accept_fragments(-1, vec![1]), Err(Error::NoPerm));
    assert_eq!(buf.accept_fragments(-22, vec![1]), Err(Error::InvalidArg));
    assert_eq!(buf.accept_fragments(3, vec![1, 2]), Err(Error::OutOfRange));
    assert_eq!(buf.len(), 0);
}
