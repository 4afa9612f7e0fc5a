use async_dpdk::packet::{chunks, Packet};
use async_dpdk::proto::{L3Protocol, L4Protocol};
use bytes::BytesMut;

#[test]
fn packet_test() {
    let mut pkt = Packet::new(L3Protocol::Ipv4, L4Protocol::TCP);
    pkt.append(BytesMut::new());
    assert_eq!(pkt.frag_count(), 1);

    // An mbuf holding five bytes.
    let mb1 = vec![vec![0u8, 1, 2, 3, 4]];

    // Test conversion between mbuf and packet.
    let pkt = Packet::from_mbuf(0, &mb1);
    assert_eq!(pkt.frag_count(), 1);
    assert_eq!(pkt.frag(0), &[0, 1, 2, 3, 4]);

    let mb2 = pkt.into_mbuf(2048);
    assert_eq!(mb2.segments.len(), 1);
    assert_eq!(mb2.data, vec![0, 1, 2, 3, 4]);

    // Test conversion betweem chained mbuf and packet.
    let mb3: Vec<Vec<u8>> = (0..3u8).map(|i| vec![i, i, i, i, i]).collect();
    let pkt = Packet::from_mbuf(0, &mb3);
    assert_eq!(pkt.frag_count(), 3);
    assert_eq!(pkt.frag(0), &[0, 0, 0, 0, 0]);
    assert_eq!(pkt.frag(1), &[1, 1, 1, 1, 1]);
    assert_eq!(pkt.frag(2), &[2, 2, 2, 2, 2]);

    let mb4 = pkt.into_mbuf(2048);
    assert_eq!(mb4.segments.len(), 1);
    assert_eq!(mb4.data, vec![0, 0, 0, 0, 0, 1, 1, 1, 1, 1, 2, 2, 2, 2, 2]);
}

#[test]
fn packet_larger_than_one_mbuf_is_chained() {
    let mut pkt = Packet::new(L3Protocol::Ipv4, L4Protocol::UDP);
    pkt.append(BytesMut::from(&b"abc"[..]));
    pkt.append(BytesMut::from(&b"defg"[..]));
    pkt.append(BytesMut::from(&b"h"[..]));
    let m = pkt.into_mbuf(3);
    assert_eq!(m.data, b"abcdefgh".to_vec());
    assert_eq!(m.segments, vec![b"abc".to_vec(), b"def".to_vec(), b"gh".to_vec()]);
    let back = Packet::from_mbuf(m.packet_type, &m.segments);
    let joined: Vec<u8> = (0..back.frag_count()).flat_map(|i| back.frag(i).to_vec()).collect();
    assert_eq!(joined, b"abcdefgh".to_vec());
    // exactly full segments leave no empty one behind
    let m = pkt.into_mbuf(4);
    assert_eq!(m.segments, vec![b"abcd".to_vec(), b"efgh".to_vec()]);
    // an empty packet still takes one mbuf
    let empty = Packet::new(L3Protocol::Ipv4, L4Protocol::UDP);
    assert_eq!(empty.into_mbuf(8).segments, vec![Vec::<u8>::new()]);
}

#[test]
fn chunks_cut_data_into_full_segments() {
    assert_eq!(chunks(&vec![1, 2, 3, 4, 5], 2), vec![vec![1, 2], vec![3, 4], vec![5]]);
    assert_eq!(chunks(&vec![1, 2], 2), vec![vec![1, 2]]);
    assert_eq!(chunks(&vec![], 2), vec![Vec::<u8>::new()]);
    assert_eq!(chunks(&vec![7], 1000), vec![vec![7]]);
}

#[test]
fn packet_type_and_header_lengths() {
    let mut pkt = Packet::new(L3Protocol::Ipv6, L4Protocol::UDP);
    pkt.append(BytesMut::from(&b"abc"[..]));
    pkt.append(BytesMut::from(&b"de"[..]));
    let m = pkt.into_mbuf(5);
    assert_eq!(m.data, b"abcde".to_vec());
    assert_eq!(m.packet_type, 0x1 | 0x40 | 0x200);
    assert_eq!((m.l2_len, m.l3_len, m.l4_len), (14, 40, 8));
    let back = Packet::from_mbuf(m.packet_type, &vec![m.data.clone()]);
    assert_eq!(back.l3protocol, L3Protocol::Ipv6);
    assert_eq!(back.l4protocol, L4Protocol::UDP);
}

#[test]
fn packet_type_bits_are_read_from_masks() {
    let pkt = Packet::from_mbuf(0x0000_0111, &vec![]);
    assert_eq!(pkt.l3protocol, L3Protocol::Ipv4);
    assert_eq!(pkt.l4protocol, L4Protocol::TCP);
    assert_eq!(pkt.frag_count(), 0);
}
