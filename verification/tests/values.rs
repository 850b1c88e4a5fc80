//! Buffers, completions and the fields of submissions.

use tokio_uring::buf::bounded::BoundedBuf;
use tokio_uring::buf::buffer::{BufPart, Buffer, UserData};
use tokio_uring::buf::slice::Slice;
use tokio_uring::compat::{statx, STATX_ALL, STATX_BASIC_STATS, STATX_MODE, STATX_TYPE};
use tokio_uring::driver::cqe::{CqeResult, Entry};
use tokio_uring::driver::sqe::{truncate16, truncate32, truncate32_signed, IoVec, Sqe};
use tokio_uring::error::Error;
use tokio_uring::io::provide_buffers::ProvideBuffers;
use tokio_uring::io::read_write::Unsubmitted;
use tokio_uring::io::shared_fd::SharedFd;

fn two_parts() -> Buffer {
    Buffer::new(vec![
        BufPart { addr: 0x1000, len: 2, cap: 5 },
        BufPart { addr: 0x2000, len: 3, cap: 9 },
    ])
}

#[test]
fn set_init_fills_parts_in_order() {
    let mut buf = two_parts();
    assert_eq!(buf.bytes_init(), 5);
    assert_eq!(buf.bytes_total(), 14);
    buf.set_init(7);
    assert_eq!((buf.part(0).len, buf.part(1).len), (5, 2));
    buf.set_init(4);
    assert_eq!((buf.part(0).len, buf.part(1).len), (4, 0));
    buf.set_init(14);
    assert_eq!((buf.part(0).len, buf.part(1).len), (5, 9));
    buf.set_init(0);
    assert_eq!(buf.bytes_init(), 0);
    assert_eq!(buf.bytes_total(), 14);
}

#[test]
fn fill_puts_everything_to_use() {
    let mut buf = two_parts();
    buf.fill();
    assert_eq!(buf.bytes_init(), 14);
    assert_eq!(
        buf.iovecs(),
        vec![IoVec { base: 0x1000, len: 5 }, IoVec { base: 0x2000, len: 9 }]
    );
}

#[test]
fn buffers_survive_being_taken_apart() {
    let (ptr, len, cap, user_data) = two_parts().into_raw_parts();
    assert_eq!(ptr, vec![0x1000, 0x2000]);
    assert_eq!(len, vec![2, 3]);
    assert_eq!(cap, vec![5, 9]);
    assert_eq!(user_data, UserData::Owned);
    assert_eq!(Buffer::from_raw_parts(ptr, len, cap, user_data), two_parts());
}

#[test]
fn windows_count_from_their_beginning() {
    let buf = Buffer::new(vec![BufPart { addr: 0x1000, len: 8, cap: 20 }]);
    let mut slice = Slice::new(buf, 3, 12);
    assert_eq!(slice.stable_ptr(), 0x1003);
    assert_eq!(slice.bytes_total(), 9);
    assert_eq!(slice.bytes_init(), 5);
    slice.set_init(9);
    assert_eq!(slice.bytes_init(), 9);
    let buf = slice.into_inner();
    assert_eq!(buf.part(0).len, 12);
    let slice = Slice::new(buf, 1, 4);
    assert_eq!(slice.bytes_init(), 3);
    assert_eq!(slice.get_buf().fixed_index(), None);
}

#[test]
fn vectored_operations_list_all_parts() {
    let fd = SharedFd::new(7);
    let op = Unsubmitted::write_at(&fd, two_parts(), 1);
    assert_eq!(
        op.sqe,
        Sqe::Writev {
            fd: 7,
            iovecs: vec![IoVec { base: 0x1000, len: 2 }, IoVec { base: 0x2000, len: 3 }],
            count: 2,
            offset: 1,
        }
    );
    assert_eq!(op.stable_data.buf, two_parts());
    let op = Unsubmitted::read_at(&fd, two_parts(), 2);
    assert_eq!(
        op.sqe,
        Sqe::Readv {
            fd: 7,
            iovecs: vec![IoVec { base: 0x1000, len: 5 }, IoVec { base: 0x2000, len: 9 }],
            count: 2,
            offset: 2,
        }
    );
    let op = Unsubmitted::write_at(&fd, Buffer::new(Vec::new()), 3);
    assert_eq!(op.sqe, Sqe::Writev { fd: 7, iovecs: Vec::new(), count: 0, offset: 3 });
}

#[test]
fn plain_operations_name_the_one_part() {
    let fd = SharedFd::new(7);
    let part = BufPart { addr: 0x1000, len: 2, cap: 5 };
    let op = Unsubmitted::write_at(&fd, Buffer::new(vec![part]), 1);
    assert_eq!(op.sqe, Sqe::Write { fd: 7, addr: 0x1000, len: 2, offset: 1 });
    let op = Unsubmitted::read_at(&fd, Buffer::new(vec![part]), 1);
    assert_eq!(op.sqe, Sqe::Read { fd: 7, addr: 0x1000, len: 5, offset: 1 });
}

#[test]
fn a_write_leaves_the_buffer_as_it_was() {
    let op = Unsubmitted::write_at(&SharedFd::new(7), two_parts(), 0);
    let cqe = Entry { result: 1, flags: 0 };
    let (n, buf) = op.post_op.transform_oneshot_output(op.stable_data, cqe).ok().unwrap();
    assert_eq!(n, 1);
    assert_eq!(buf, two_parts());
}

#[test]
fn completions_are_results_or_errors() {
    let ok = CqeResult::new(Entry { result: 12, flags: 3 });
    assert_eq!(ok.result, Ok(12));
    assert_eq!(ok.flags, 3);
    let zero = CqeResult::new(Entry { result: 0, flags: 0 });
    assert_eq!(zero.result, Ok(0));
    let failed = CqeResult::new(Entry { result: -22, flags: 0 });
    assert_eq!(failed.result, Err(Error::Os(22)));
}

#[test]
fn provided_buffers_are_described() {
    let op = ProvideBuffers::provide_buffers(0x8000, 2048, 16, 5, 100);
    assert_eq!(
        op.sqe,
        Sqe::ProvideBuffers { addr: 0x8000, buf_len: 2048, nbufs: 16, bgid: 5, bid: 100 }
    );
    assert_eq!(op.data.complete(CqeResult::new(Entry { result: 0, flags: 0 })), Ok(()));
    let failed = CqeResult::new(Entry { result: -7, flags: 0 });
    assert_eq!(op.data.complete(failed), Err(Error::Os(7)));
}

#[test]
fn lengths_are_cut_to_their_fields() {
    let op = ProvideBuffers::provide_buffers(0, 0x8000_0001, 0x1_0003, 0, 0);
    assert_eq!(op.data.len, -0x7fff_ffff);
    assert_eq!(op.data.nbufs, 3);
    assert_eq!(truncate32(0x1_0000_0005), 5);
    assert_eq!(truncate32(0xffff_ffff), 0xffff_ffff);
    assert_eq!(truncate32_signed(0x7fff_ffff), 0x7fff_ffff);
    assert_eq!(truncate32_signed(0xffff_ffff), -1);
    assert_eq!(truncate16(0xffff), 0xffff);
    let part = BufPart { addr: 0, len: 0x1_0000_0005, cap: 0x2_0000_0007 };
    let op = Unsubmitted::write_at(&SharedFd::new(1), Buffer::new(vec![part]), 0);
    assert_eq!(op.sqe, Sqe::Write { fd: 1, addr: 0, len: 5, offset: 0 });
    let op = Unsubmitted::read_at(&SharedFd::new(1), Buffer::new(vec![part]), 0);
    assert_eq!(op.sqe, Sqe::Read { fd: 1, addr: 0, len: 7, offset: 0 });
}

#[test]
fn metadata_starts_out_empty() {
    let meta = statx::default();
    assert_eq!(meta.stx_size, 0);
    assert_eq!(meta.stx_mtime.tv_sec, 0);
    assert_eq!(STATX_TYPE | STATX_MODE, 3);
    assert_eq!(STATX_ALL & STATX_BASIC_STATS, STATX_BASIC_STATS);
}
