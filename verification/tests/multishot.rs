//! Receiving packets.

use std::sync::Arc;
use tokio_uring::driver::cqe::{CqeResult, Entry};
use tokio_uring::driver::sqe::{MsgHdr, Sqe};
use tokio_uring::error::{Error, InvalidData};
use tokio_uring::io::recv_from_multishot::{
    is_readable, parse_recvmsg_out, read_packet, BufferProvider, RecvFromMultishot,
    RecvFromMultishotResult,
};
use tokio_uring::io::shared_fd::SharedFd;
use tokio_uring::io::sockaddr::{decode_name, SocketAddr};

const SENDER: SocketAddr = SocketAddr::V4 { ipv4: 0x7f00_0001, port: 0x1f90 };

fn name_v4() -> Vec<u8> {
    let mut name = 2u16.to_ne_bytes().to_vec();
    name.extend_from_slice(&[0x1f, 0x90, 127, 0, 0, 1, 0, 0, 0, 0, 0, 0, 0, 0]);
    name
}

fn name_v6() -> Vec<u8> {
    let mut name = 10u16.to_ne_bytes().to_vec();
    name.extend_from_slice(&[0x00, 0x35]);
    name.extend_from_slice(&0x0102_0304u32.to_ne_bytes());
    name.extend_from_slice(&[0x20, 0x01, 0x0d, 0xb8, 0, 0, 0, 0, 0, 0, 0, 0, 0, 0, 0, 9]);
    name.extend_from_slice(&7u32.to_ne_bytes());
    name
}

fn packet(name: &[u8], namelen: usize, controllen: usize, payload: &[u8]) -> Vec<u8> {
    let mut bytes = Vec::new();
    bytes.extend_from_slice(&(name.len() as u32).to_le_bytes());
    bytes.extend_from_slice(&0u32.to_le_bytes());
    bytes.extend_from_slice(&(payload.len() as u32).to_le_bytes());
    bytes.extend_from_slice(&0u32.to_le_bytes());
    bytes.extend_from_slice(name);
    bytes.resize(16 + namelen + controllen, 0xee);
    bytes.extend_from_slice(payload);
    bytes
}

struct Group {
    buffers: Vec<Vec<u8>>,
}

impl BufferProvider for Group {
    fn get_buffer(&self, buffer_id: u16, len: usize) -> &[u8] {
        &self.buffers[buffer_id as usize][..len]
    }
}

fn completion(id: u16, len: usize, more: bool) -> CqeResult {
    let flags = ((id as u32) << 16) | 1 | if more { 2 } else { 0 };
    CqeResult::new(Entry { result: len as i32, flags })
}

fn operation(buffers: Vec<Vec<u8>>) -> RecvFromMultishot<dyn BufferProvider> {
    let provider: Arc<dyn BufferProvider> = Arc::new(Group { buffers });
    RecvFromMultishot::recv_from_multishot(&SharedFd::new(4), 9, provider).data
}

#[test]
fn submission_reserves_room_for_any_name() {
    let provider = Arc::new(Group { buffers: Vec::new() });
    let op = RecvFromMultishot::recv_from_multishot_with_batch_size(
        &SharedFd::new(4),
        9,
        provider,
        5,
    );
    assert_eq!(
        op.sqe,
        Sqe::RecvMsgMulti {
            fd: 4,
            msg: MsgHdr { namelen: 128, controllen: 0, iovlen: 1, iov_len: 1500 },
            buf_group: 9,
        }
    );
    assert!(!op.data.should_yield());
}

#[test]
fn packets_arrive_in_batches() {
    let first = packet(&name_v4(), 128, 0, b"first");
    let second = packet(&name_v6(), 128, 0, b"second one");
    let (n0, n1) = (first.len(), second.len());
    let mut op = operation(vec![first, second]);

    op.update(completion(0, n0, true));
    assert!(op.should_yield());
    op.update(completion(1, n1, true));
    let batch = op.yield_result().unwrap();
    assert!(!op.should_yield());
    assert_eq!(
        batch,
        vec![
            RecvFromMultishotResult {
                bytes_received: 5,
                source_addr: SENDER,
                buffer_id: 0,
                payload_offset: 144,
                more: true,
            },
            RecvFromMultishotResult {
                bytes_received: 10,
                source_addr: SocketAddr::V6 {
                    ipv6: 0x2001_0db8_0000_0000_0000_0000_0000_0009,
                    port: 53,
                    flowinfo: 0x0102_0304,
                    scope_id: 7,
                },
                buffer_id: 1,
                payload_offset: 144,
                more: true,
            },
        ]
    );

    // The last completion joins what has arrived since.
    op.update(completion(1, n1, true));
    let batch = op.complete(completion(0, n0, false)).unwrap();
    assert_eq!(batch.len(), 2);
    assert_eq!(batch[0].buffer_id, 1);
    assert_eq!(batch[1].buffer_id, 0);
    assert!(!batch[1].more);
}

#[test]
fn nothing_is_lost_between_batches() {
    let buffers: Vec<Vec<u8>> = (0..6u8).map(|i| packet(&name_v4(), 128, 0, &[i; 3])).collect();
    let n = buffers[0].len();
    let mut op = operation(buffers);
    let mut ids = Vec::new();
    for id in 0..6 {
        assert!(op.try_update(completion(id, n, true)));
        if id % 4 == 2 {
            ids.extend(op.yield_result().unwrap().iter().map(|p| p.buffer_id));
        }
    }
    ids.extend(op.yield_result().unwrap().iter().map(|p| p.buffer_id));
    assert_eq!(ids, vec![0, 1, 2, 3, 4, 5]);
}

#[test]
fn useless_completions_deliver_nothing() {
    let good = packet(&name_v4(), 128, 0, b"x");
    let n = good.len();
    let mut op = operation(vec![good, vec![0; 10]]);
    // An error.
    op.update(CqeResult::new(Entry { result: -105, flags: 0 }));
    // No buffer.
    op.update(CqeResult::new(Entry { result: 4, flags: 2 }));
    // Bytes that make no sense.
    op.update(completion(1, 10, true));
    assert!(!op.should_yield());
    op.update(completion(0, n, true));
    assert!(op.should_yield());
    let batch = op.complete(CqeResult::new(Entry { result: -125, flags: 0 })).unwrap();
    assert_eq!(batch.len(), 1);
}

#[test]
fn completing_is_updating_and_handing_out() {
    let buffers = vec![packet(&name_v4(), 128, 0, b"one"), packet(&name_v6(), 128, 0, b"two")];
    let (n0, n1) = (buffers[0].len(), buffers[1].len());
    let endings = vec![
        completion(1, n1, false),
        CqeResult::new(Entry { result: -125, flags: 0 }),
        CqeResult::new(Entry { result: -125, flags: 1 }),
        CqeResult::new(Entry { result: 7, flags: 0 }),
    ];
    for (i, last) in endings.into_iter().enumerate() {
        let mut one = operation(buffers.clone());
        let mut other = operation(buffers.clone());
        one.update(completion(0, n0, true));
        other.update(completion(0, n0, true));
        let completed = one.complete(last).unwrap();
        other.update(last);
        assert_eq!(completed, other.yield_result().unwrap());
        assert_eq!(completed.len(), if i == 0 { 2 } else { 1 });
    }
}

#[test]
fn completing_with_a_look_at_the_lengths_gives_the_same_batch() {
    let good = packet(&name_v4(), 128, 0, b"one");
    let n = good.len();
    for last in [completion(0, n, false), CqeResult::new(Entry { result: -125, flags: 0 })] {
        let mut one = operation(vec![good.clone()]);
        let mut other = operation(vec![good.clone()]);
        assert!(one.try_update(completion(0, n, true)));
        assert!(other.try_update(completion(0, n, true)));
        assert_eq!(one.try_complete(last), other.complete(last).ok());
    }
    assert_eq!(operation(vec![good]).try_complete(completion(0, 10, false)), Some(Vec::new()));
}

#[test]
fn payloads_lie_where_the_packets_say() {
    let payloads: Vec<Vec<u8>> = (0..4usize).map(|i| vec![i as u8; 5 * i]).collect();
    let buffers: Vec<Vec<u8>> =
        payloads.iter().map(|payload| packet(&name_v6(), 128, 0, payload)).collect();
    let mut op = operation(buffers.clone());
    for (id, bytes) in buffers.iter().enumerate() {
        op.update(completion(id as u16, bytes.len(), true));
        op.update(CqeResult::new(Entry { result: -11, flags: 2 }));
    }
    let batch = op.yield_result().unwrap();
    assert_eq!(batch.len(), 4);
    for p in batch {
        assert_eq!(p.payload_offset, 144);
        let bytes = &buffers[p.buffer_id as usize];
        assert_eq!(
            bytes[p.payload_offset..p.payload_offset + p.bytes_received],
            payloads[p.buffer_id as usize][..]
        );
    }
}

#[test]
fn untrustworthy_lengths_are_noticed() {
    let mut bad = packet(&name_v4(), 128, 0, b"x");
    bad[0] = 0xff;
    let n = bad.len();
    let mut op = operation(vec![bad.clone()]);
    assert!(!op.try_update(completion(0, n, true)));
    assert!(!op.should_yield());
    assert!(!is_readable(&bad, 128, 0));
    assert!(op.try_complete(completion(0, n, false)).is_none());

    // The name is longer than any socket address, and lies in the buffer.
    let mut long = packet(&name_v4(), 128, 0, &[0; 100]);
    long[0] = 129;
    assert!(!is_readable(&long, 128, 0));
    long[0] = 128;
    assert!(is_readable(&long, 128, 0));
    // The size of the packet is no machine integer.
    assert!(!is_readable(&long, usize::MAX - 20, 0));
    assert!(is_readable(&long[..15], usize::MAX, usize::MAX));
}

#[test]
fn payload_follows_the_reserved_areas() {
    let bytes = packet(&name_v4(), 40, 24, b"payload");
    let (addr, offset, len) = parse_recvmsg_out(&bytes, 40, 24).unwrap();
    assert_eq!(addr, SENDER);
    assert_eq!(offset, 80);
    assert_eq!(&bytes[offset..offset + len], b"payload");
}

#[test]
fn short_header_is_rejected() {
    let bytes = packet(&name_v4(), 128, 0, b"");
    assert_eq!(
        parse_recvmsg_out(&bytes[..15], 128, 0),
        Err(Error::InvalidData(InvalidData::HeaderTooSmall))
    );
}

#[test]
fn short_buffer_is_rejected() {
    let bytes = packet(&name_v4(), 128, 0, b"payload");
    assert_eq!(
        parse_recvmsg_out(&bytes[..150], 128, 0),
        Err(Error::InvalidData(InvalidData::BufferTooSmall { expected: 151, got: 150 }))
    );
}

#[test]
fn short_name_is_rejected() {
    let bytes = packet(&name_v4()[..15], 128, 0, b"payload");
    assert_eq!(
        parse_recvmsg_out(&bytes, 128, 0),
        Err(Error::InvalidData(InvalidData::NameTooSmall))
    );
    let bytes = packet(&name_v4()[..16], 128, 0, b"payload");
    assert!(parse_recvmsg_out(&bytes, 128, 0).is_ok());
}

#[test]
fn foreign_address_family_is_rejected() {
    let mut name = name_v4();
    name[0] = 1;
    let bytes = packet(&name, 128, 0, b"payload");
    assert_eq!(
        parse_recvmsg_out(&bytes, 128, 0),
        Err(Error::InvalidData(InvalidData::InvalidSocketAddress))
    );
    // The family takes two bytes.
    name[0] = 2;
    name[1] = 1;
    assert_eq!(decode_name(&name), None);
}

#[test]
fn families_are_in_the_order_of_the_machine() {
    let mut name = name_v4();
    name[..2].copy_from_slice(&2u16.swap_bytes().to_ne_bytes());
    assert_eq!(decode_name(&name), None);
    name[..2].copy_from_slice(&2u16.to_ne_bytes());
    assert_eq!(decode_name(&name), Some(SENDER));
}

#[test]
fn cut_off_address_is_filled_up_with_zeros() {
    assert_eq!(
        decode_name(&name_v6()[..16]),
        Some(SocketAddr::V6 {
            ipv6: 0x2001_0db8_0000_0000_0000_0000_0000_0000,
            port: 53,
            flowinfo: 0x0102_0304,
            scope_id: 0,
        })
    );
    assert_eq!(decode_name(&name_v4()), Some(SENDER));
    assert_eq!(decode_name(&[]), None);
}

#[test]
fn packets_tell_their_buffer_and_whether_more_follow() {
    let bytes = packet(&name_v4(), 128, 0, b"abc");
    let got = read_packet(completion(0xabcd, bytes.len(), false), &bytes, 128, 0).unwrap();
    assert_eq!(got.buffer_id, 0xabcd);
    assert!(!got.more);
    let got = read_packet(completion(0xffff, bytes.len(), true), &bytes, 128, 0).unwrap();
    assert_eq!(got.buffer_id, 0xffff);
    assert!(got.more);
}
