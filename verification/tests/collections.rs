//! Pools and registries on their own.

use tokio_uring::buf::buffer::{BufPart, Buffer, UserData};
use tokio_uring::buf::fixed::pool::{self, FixedBufPool, NextStep, PoolInfo};
use tokio_uring::buf::fixed::registry::{self, FixedBufRegistry, RegistryInfo};
use tokio_uring::driver::context::Context;
use tokio_uring::driver::sqe::{IoVec, RegisterRequest};

fn buffer(addr: usize, len: usize, cap: usize) -> Buffer {
    Buffer::new(vec![BufPart { addr, len, cap }])
}

fn registered_pool(bufs: Vec<Buffer>) -> FixedBufPool {
    let mut context = Context::new();
    let registration = pool::register(&context, bufs).ok().unwrap();
    registration.complete(&mut context, Ok(())).ok().unwrap()
}

fn pool_of(caps: &[usize]) -> FixedBufPool {
    let bufs = caps.iter().enumerate().map(|(i, &n)| buffer(0x10000 * (i + 1), 0, n)).collect();
    registered_pool(bufs)
}

fn registry_of(caps: &[usize]) -> FixedBufRegistry {
    let bufs = caps.iter().enumerate().map(|(i, &n)| buffer(0x10000 * (i + 1), 0, n)).collect();
    let mut context = Context::new();
    let registration = registry::register(&context, bufs).ok().unwrap();
    registration.complete(&mut context, Ok(())).ok().unwrap()
}

fn pool_index(buf: &Buffer) -> u16 {
    match buf.user_data() {
        UserData::Pool(info) => info.index,
        other => panic!("not of a pool: {:?}", other),
    }
}

#[test]
fn pool_hands_out_by_capacity() {
    const LARGE: usize = 8192;
    const SMALL: usize = 4096;
    let mut pool = pool_of(&[LARGE, SMALL, SMALL]);

    let buf = pool.try_next(LARGE).unwrap();
    assert_eq!(buf.bytes_total(), LARGE);
    assert!(pool.try_next(LARGE).is_none());
    let buf1 = pool.try_next(SMALL).unwrap();
    assert_eq!(buf1.bytes_total(), SMALL);
    let buf2 = pool.try_next(SMALL).unwrap();
    assert_eq!(buf2.bytes_total(), SMALL);
    assert_ne!(pool_index(&buf1), pool_index(&buf2));
    assert!(pool.try_next(SMALL).is_none());
    pool.check_in(buf);
    let buf = pool.try_next(LARGE).unwrap();
    assert_eq!(buf.bytes_total(), LARGE);
}

#[test]
fn live_handles_never_share_a_buffer() {
    let mut pool = pool_of(&[16, 32, 16, 16]);
    let mut live: Vec<Buffer> = Vec::new();
    for round in 0..20usize {
        if round % 3 == 2 {
            let buf = live.remove(round % live.len());
            pool.check_in(buf);
        } else {
            match pool.next(16) {
                NextStep::Ready(buf) => {
                    for other in live.iter() {
                        assert_ne!(pool_index(other), pool_index(&buf));
                        assert_ne!(other.part(0).addr, buf.part(0).addr);
                    }
                    live.push(buf);
                }
                NextStep::Wait => assert_eq!(live.len(), 3),
            }
        }
        assert!(live.len() <= 3);
    }
}

#[test]
fn waiting_ends_only_with_a_release_of_the_capacity() {
    let mut pool = pool_of(&[16, 32, 32]);
    let small = pool.try_next(16).unwrap();
    let large = pool.try_next(32).unwrap();
    assert!(matches!(pool.next(16), NextStep::Wait));
    pool.check_in(large);
    assert!(matches!(pool.next_when_notified(16), NextStep::Wait));
    assert!(pool.try_next(32).is_some());
    assert!(pool.try_next(16).is_none());
    assert_eq!(pool.check_in(small), Some(16));
    assert!(matches!(pool.next_when_notified(16), NextStep::Ready(_)));
}

#[test]
fn registry_buffers_are_out_exactly_while_a_handle_is_live() {
    let mut registry = registry_of(&[8, 8, 8]);
    let mut live: Vec<Option<Buffer>> = vec![None, None, None];
    for round in 0..12usize {
        let index = (round * 5) % 3;
        match live[index].take() {
            Some(buf) => {
                assert!(registry.check_out(index).is_none());
                registry.check_in(buf);
            }
            None => {
                let buf = registry.check_out(index).unwrap();
                assert_eq!(buf.fixed_index(), Some(index as u16));
                live[index] = Some(buf);
            }
        }
    }
}

#[test]
fn pool_has_nothing_of_an_unknown_capacity() {
    let mut pool = pool_of(&[16, 32]);
    assert!(pool.try_next(8).is_none());
    assert!(pool.try_next(33).is_none());
    assert!(pool.try_next(16).is_some());
}

#[test]
fn pool_keeps_what_has_been_written() {
    let mut pool = pool_of(&[16]);
    let mut buf = pool.try_next(16).unwrap();
    buf.set_init(11);
    pool.check_in(buf);
    let buf = pool.try_next(16).unwrap();
    assert_eq!(buf.part(0), BufPart { addr: 0x10000, len: 11, cap: 16 });
}

#[test]
fn pool_cycles_through_all_buffers_of_a_capacity() {
    let mut pool = pool_of(&[4, 8, 4, 8, 4]);
    for _ in 0..3 {
        let mut held = Vec::new();
        while let Some(buf) = pool.try_next(4) {
            held.push(buf);
        }
        let mut indices: Vec<u16> = held.iter().map(pool_index).collect();
        indices.sort();
        assert_eq!(indices, vec![0, 2, 4]);
        // Give them back in another order than they came.
        let middle = held.remove(1);
        pool.check_in(middle);
        for buf in held {
            pool.check_in(buf);
        }
    }
}

#[test]
fn pool_wakes_only_who_has_waited() {
    let mut pool = pool_of(&[16, 32]);
    let small = pool.try_next(16).unwrap();
    let large = match pool.next(32) {
        NextStep::Ready(buf) => buf,
        NextStep::Wait => panic!("the buffer is free"),
    };
    // Nobody has waited for either capacity.
    assert_eq!(pool.check_in(large), None);
    assert!(matches!(pool.next(16), NextStep::Wait));
    assert!(matches!(pool.next_when_notified(16), NextStep::Wait));
    assert_eq!(pool.check_in(small), Some(16));
    let small = match pool.next_when_notified(16) {
        NextStep::Ready(buf) => buf,
        NextStep::Wait => panic!("the buffer is free"),
    };
    // That somebody has waited is never forgotten.
    assert_eq!(pool.check_in(small), Some(16));
    let large = pool.try_next(32).unwrap();
    assert_eq!(pool.check_in(large), None);
}

#[test]
fn at_most_1024_buffers_are_taken() {
    let bufs = (0..1030).map(|i| buffer(0x100 * (i + 1), 0, 16)).collect();
    let mut context = Context::new();
    let registration = registry::register(&context, bufs).ok().unwrap();
    match registration.request() {
        RegisterRequest::Register(iovecs) => {
            assert_eq!(iovecs.len(), 1024);
            assert_eq!(iovecs[0], IoVec { base: 0x100, len: 16 });
            assert_eq!(iovecs[1023], IoVec { base: 0x40000, len: 16 });
        }
        RegisterRequest::Unregister => panic!("not a registration"),
    }
    let mut registry = registration.complete(&mut context, Ok(())).ok().unwrap();
    assert!(registry.check_out(1023).is_some());
    assert!(registry.check_out(1024).is_none());

    let bufs = (0..1030).map(|i| buffer(0x100 * (i + 1), 0, 16)).collect();
    let mut pool = registered_pool(bufs);
    let mut count = 0;
    while pool.try_next(16).is_some() {
        count += 1;
    }
    assert_eq!(count, 1024);
}

#[test]
fn registration_lists_the_buffers_in_order() {
    let mut context = Context::new();
    let bufs = vec![buffer(0x5000, 3, 10), buffer(0x2000, 0, 20)];
    let registration = pool::register(&context, bufs).ok().unwrap();
    assert_eq!(
        registration.request(),
        RegisterRequest::Register(vec![
            IoVec { base: 0x5000, len: 10 },
            IoVec { base: 0x2000, len: 20 },
        ])
    );
    let mut pool = registration.complete(&mut context, Ok(())).ok().unwrap();
    let buf = pool.try_next(10).unwrap();
    assert_eq!(buf.bytes_init(), 3);
    assert_eq!(pool_index(&buf), 0);
}

#[test]
fn registry_knows_its_indices() {
    let mut registry = registry_of(&[30, 20, 10]);
    assert!(registry.check_out(3).is_none());
    assert!(registry.check_out(usize::MAX).is_none());
    let buf = registry.check_out(2).unwrap();
    assert_eq!(buf.user_data(), UserData::Registry(RegistryInfo { index: 2 }));
    assert_eq!(buf.fixed_index(), Some(2));
    assert_eq!(buf.bytes_total(), 10);
    assert!(registry.check_out(2).is_none());
    registry.check_in(buf);
    assert!(registry.check_out(2).is_some());
}

#[test]
fn released_pool_memory_is_released_once() {
    let mut pool = pool_of(&[16]);
    let (ptr, len, cap, user_data) = pool.try_next(16).unwrap().into_raw_parts();
    let info = match user_data {
        UserData::Pool(info) => info,
        other => panic!("not of a pool: {:?}", other),
    };
    assert_eq!(info, PoolInfo { index: 0 });
    let mut fixed = pool::FixedBuf::from_raw_parts(ptr, len, cap, info);
    assert_eq!(fixed.release(&mut pool), None);
    assert!(fixed.pool_info.is_none());
    let again = pool.try_next(16).unwrap();
    // The second release does nothing.
    assert_eq!(fixed.release(&mut pool), None);
    assert!(pool.try_next(16).is_none());
    pool.check_in(again);
}

#[test]
fn released_registry_memory_is_released_once() {
    let mut registry = registry_of(&[16]);
    let (ptr, len, cap, user_data) = registry.check_out(0).unwrap().into_raw_parts();
    let info = match user_data {
        UserData::Registry(info) => info,
        other => panic!("not of a registry: {:?}", other),
    };
    let mut fixed = registry::FixedBuf::from_raw_parts(ptr, len, cap, info);
    fixed.release(&mut registry);
    let again = registry.check_out(0).unwrap();
    fixed.release(&mut registry);
    assert!(registry.check_out(0).is_none());
    registry.check_in(again);
}

#[test]
fn fixed_buffers_survive_being_taken_apart() {
    let fixed = pool::FixedBuf {
        iovec: IoVec { base: 0x1234, len: 99 },
        init_len: 7,
        pool_info: Some(PoolInfo { index: 5 }),
    };
    let (ptr, len, cap, info) = fixed.into_raw_parts();
    assert_eq!((&ptr[..], &len[..], &cap[..]), (&[0x1234][..], &[7][..], &[99][..]));
    let again = pool::FixedBuf::from_raw_parts(ptr, len, cap, info);
    assert_eq!(
        again,
        pool::FixedBuf {
            iovec: IoVec { base: 0x1234, len: 99 },
            init_len: 7,
            pool_info: Some(PoolInfo { index: 5 }),
        }
    );

    let fixed = registry::FixedBuf {
        iovec: IoVec { base: 0x1234, len: 99 },
        init_len: 7,
        registry_info: Some(RegistryInfo { index: 6 }),
    };
    let (ptr, len, cap, info) = fixed.into_raw_parts();
    let again = registry::FixedBuf::from_raw_parts(ptr, len, cap, info);
    assert_eq!(again.init_len, 7);
    assert_eq!(again.iovec, IoVec { base: 0x1234, len: 99 });
    assert_eq!(again.registry_info, Some(RegistryInfo { index: 6 }));
}
