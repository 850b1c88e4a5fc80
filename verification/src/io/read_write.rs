//! Reading and writing at a given place of a file, with any kind of buffer.

use crate::buf::buffer::{total_cap, total_len, Buffer, BufferView};
use crate::driver::cqe::{byte_count, decoded, Entry};
use crate::driver::sqe::{low32, truncate32, Sqe};
use crate::error::{with_buffer, without_buffer, BufError, BufResult, Error};
use crate::io::shared_fd::SharedFd;
use vstd::prelude::*;

verus! {

/// An operation with one completion that has not been submitted yet: the data to
/// keep until then, what to make of the completion, and the submission itself.
pub struct UnsubmittedOneshot<D, T> {
    pub stable_data: D,
    pub post_op: T,
    pub sqe: Sqe,
}

impl<D, T> UnsubmittedOneshot<D, T> {
    /// Puts the parts of an operation together.
    pub fn new(stable_data: D, post_op: T, sqe: Sqe) -> (r: UnsubmittedOneshot<D, T>)
        ensures
            r == (UnsubmittedOneshot { stable_data, post_op, sqe }),
    {
        UnsubmittedOneshot { stable_data, post_op, sqe }
    }
}

/// A read or a write that has not been submitted yet.
pub type Unsubmitted = UnsubmittedOneshot<ReadWriteData, ReadWriteTransform>;

/// What a read or a write holds on to while it is in flight.
pub struct ReadWriteData {
    /// The file to read or write. Whoever submits the operation keeps it open while the
    /// operation is in flight.
    pub fd: SharedFd,
    /// The buffer in flight.
    pub buf: Buffer,
}

/// Whether the kernel fills the buffer or empties it.
#[derive(Clone, Copy, Debug, PartialEq, Eq, Structural)]
pub enum Kind {
    Read,
    Write,
}

/// What to make of the completion of a read or a write.
#[derive(Clone, Copy, Debug, PartialEq, Eq, Structural)]
pub struct ReadWriteTransform(pub Kind);

impl ReadWriteTransform {
    /// The outcome: how many bytes were read or written, and the buffer. The bytes
    /// that were read are in use in it then.
    pub fn transform_oneshot_output(self, data: ReadWriteData, cqe: Entry) -> (r: BufResult<
        usize,
        Buffer,
    >)
        requires
            data.buf@.wf(),
            cqe.result != i32::MIN,
            self.0 is Read ==> cqe.result <= total_cap(data.buf@.parts),
        ensures
            without_buffer(r) == byte_count(decoded(cqe.result)),
            if cqe.result < 0 {
                r == Err::<(usize, Buffer), BufError<Buffer>>(
                    BufError(Error::Os((-cqe.result) as i32), data.buf),
                )
            } else {
                r matches Ok((n, buf)) && {
                    &&& n == cqe.result
                    &&& match self.0 {
                        Kind::Read => {
                            &&& buf@ == data.buf@.with_len(n as nat)
                            &&& buf@.wf()
                            &&& total_len(buf@.parts) == n
                        },
                        Kind::Write => buf == data.buf,
                    }
                }
            },
    {
        let n: i32 = cqe.result;
        if n < 0 {
            return with_buffer(Err(Error::Os(-n)), data.buf);
        }
        let mut buf = data.buf;
        match self.0 {
            Kind::Read => {
                buf.set_init(n as usize);
            },
            Kind::Write => {},
        }
        Ok((n as usize, buf))
    }
}

/// `sqe` writes the used bytes of `buf` to `offset`: from a registered buffer where
/// the memory is one, from all parts at once where there is not exactly one.
pub open spec fn writes(sqe: Sqe, fd: SharedFd, buf: BufferView, offset: u64) -> bool {
    if buf.parts.len() == 1 {
        match buf.fixed_index() {
            Some(buf_index) => sqe == (Sqe::WriteFixed {
                fd: fd.fd,
                addr: buf.parts[0].addr,
                len: low32(buf.parts[0].len) as u32,
                buf_index,
                offset,
            }),
            None => sqe == (Sqe::Write {
                fd: fd.fd,
                addr: buf.parts[0].addr,
                len: low32(buf.parts[0].len) as u32,
                offset,
            }),
        }
    } else {
        sqe matches Sqe::Writev { fd: to, iovecs, count, offset: at } && {
            &&& to == fd.fd
            &&& iovecs@ == buf.iovecs()
            &&& count == low32(buf.parts.len() as usize)
            &&& at == offset
        }
    }
}

/// `sqe` reads from `offset` into all of the memory of `buf`: into a registered
/// buffer where the memory is one, into all parts at once where there is not exactly
/// one.
pub open spec fn reads(sqe: Sqe, fd: SharedFd, buf: BufferView, offset: u64) -> bool {
    if buf.parts.len() == 1 {
        match buf.fixed_index() {
            Some(buf_index) => sqe == (Sqe::ReadFixed {
                fd: fd.fd,
                addr: buf.parts[0].addr,
                len: low32(buf.parts[0].cap) as u32,
                buf_index,
                offset,
            }),
            None => sqe == (Sqe::Read {
                fd: fd.fd,
                addr: buf.parts[0].addr,
                len: low32(buf.parts[0].cap) as u32,
                offset,
            }),
        }
    } else {
        sqe matches Sqe::Readv { fd: from, iovecs, count, offset: at } && {
            &&& from == fd.fd
            &&& iovecs@ == buf.all_in_use().iovecs()
            &&& count == low32(buf.parts.len() as usize)
            &&& at == offset
        }
    }
}

impl UnsubmittedOneshot<ReadWriteData, ReadWriteTransform> {
    /// A write of the used bytes of a buffer, from `offset` on.
    pub fn write_at(fd: &SharedFd, buf: Buffer, offset: u64) -> (r: Unsubmitted)
        requires
            buf@.wf(),
        ensures
            writes(r.sqe, *fd, buf@, offset),
            r.stable_data == (ReadWriteData { fd: *fd, buf }),
            r.post_op == ReadWriteTransform(Kind::Write),
    {
        let sqe = if buf.len() == 1 {
            let part = buf.part(0);
            let len: u32 = truncate32(part.len);
            match buf.fixed_index() {
                Some(buf_index) => Sqe::WriteFixed {
                    fd: fd.raw_fd(),
                    addr: part.addr,
                    len,
                    buf_index,
                    offset,
                },
                None => Sqe::Write { fd: fd.raw_fd(), addr: part.addr, len, offset },
            }
        } else {
            Sqe::Writev {
                fd: fd.raw_fd(),
                iovecs: buf.iovecs(),
                count: truncate32(buf.len()),
                offset,
            }
        };
        UnsubmittedOneshot::new(
            ReadWriteData { fd: *fd, buf },
            ReadWriteTransform(Kind::Write),
            sqe,
        )
    }

    /// A read from `offset` on into all of the memory of a buffer. While the read is
    /// in flight all of that memory is in use.
    pub fn read_at(fd: &SharedFd, buf: Buffer, offset: u64) -> (r: Unsubmitted)
        requires
            buf@.wf(),
        ensures
            reads(r.sqe, *fd, buf@, offset),
            r.stable_data.fd == *fd,
            r.stable_data.buf@ == buf@.all_in_use(),
            r.stable_data.buf@.wf(),
            total_cap(r.stable_data.buf@.parts) == total_cap(buf@.parts),
            r.post_op == ReadWriteTransform(Kind::Read),
    {
        let mut buf = buf;
        buf.fill();
        let sqe = if buf.len() == 1 {
            let part = buf.part(0);
            let len: u32 = truncate32(part.cap);
            match buf.fixed_index() {
                Some(buf_index) => Sqe::ReadFixed {
                    fd: fd.raw_fd(),
                    addr: part.addr,
                    len,
                    buf_index,
                    offset,
                },
                None => Sqe::Read { fd: fd.raw_fd(), addr: part.addr, len, offset },
            }
        } else {
            Sqe::Readv {
                fd: fd.raw_fd(),
                iovecs: buf.iovecs(),
                count: truncate32(buf.len()),
                offset,
            }
        };
        UnsubmittedOneshot::new(
            ReadWriteData { fd: *fd, buf },
            ReadWriteTransform(Kind::Read),
            sqe,
        )
    }
}

} // verus!
