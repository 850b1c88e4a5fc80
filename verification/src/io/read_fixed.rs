//! Reading from a file into a registered buffer.

use crate::buf::bounded::{BoundedBuf, Window};
use crate::driver::cqe::{byte_count, CqeResult};
use crate::driver::sqe::{low32, truncate32, Op, Sqe};
use crate::error::{with_buffer, without_buffer, BufError, BufResult, Error};
use crate::io::shared_fd::SharedFd;
use vstd::prelude::*;

verus! {

/// A read into a registered buffer, in flight.
pub struct ReadFixed<T> {
    /// The file to read. Whoever submits the operation keeps it open while the operation
    /// is in flight.
    pub fd: SharedFd,
    /// The buffer in flight.
    pub buf: T,
}

/// `sqe` reads from `offset` into all of a window on a registered buffer.
pub open spec fn reads_window(sqe: Sqe, fd: SharedFd, window: Window, offset: u64) -> bool {
    sqe == (Sqe::ReadFixed {
        fd: fd.fd,
        addr: window.addr() as usize,
        len: low32(window.total() as usize) as u32,
        buf_index: window.buf.fixed_index()->0,
        offset,
    })
}

impl<T: BoundedBuf> Op<ReadFixed<T>> {
    /// A read from `offset` on into all of a window on a registered buffer.
    pub fn read_fixed_at(fd: &SharedFd, buf: T, offset: u64) -> (r: Op<ReadFixed<T>>)
        requires
            buf.window().wf(),
            buf.window().buf.fixed_index() is Some,
        ensures
            r.data.fd == *fd,
            r.data.buf == buf,
            reads_window(r.sqe, *fd, buf.window(), offset),
            r.sqe == (Sqe::ReadFixed {
                fd: fd.fd,
                addr: buf.window().addr() as usize,
                len: low32(buf.window().total() as usize) as u32,
                buf_index: buf.window().buf.fixed_index()->0,
                offset,
            }),
    {
        let addr: usize = buf.stable_ptr();
        let len: usize = buf.bytes_total();
        let buf_index: u16 = buf.get_buf().fixed_index().unwrap();
        let sqe = Sqe::ReadFixed {
            fd: fd.raw_fd(),
            addr,
            len: truncate32(len),
            buf_index,
            offset,
        };
        Op { data: ReadFixed { fd: *fd, buf }, sqe }
    }
}

impl<T: BoundedBuf> ReadFixed<T> {
    /// The outcome: how many bytes were read, and the buffer, in which they are in
    /// use then.
    pub fn complete(self, cqe: CqeResult) -> (r: BufResult<usize, T>)
        requires
            self.buf.window().wf(),
            cqe.result matches Ok(n) ==> n <= self.buf.window().total(),
        ensures
            without_buffer(r) == byte_count(cqe.result),
            match cqe.result {
                Ok(n) => r matches Ok((read, buf)) && {
                    &&& read == n
                    &&& buf.window() == self.buf.window().with_len(n as nat)
                    &&& buf.window().wf()
                    &&& buf.window().used() == n
                },
                Err(error) => r == Err::<(usize, T), BufError<T>>(BufError(error, self.buf)),
            },
    {
        let mut buf = self.buf;
        let res: Result<usize, Error> = match cqe.result {
            Ok(n) => {
                buf.set_init(n as usize);
                Ok(n as usize)
            },
            Err(error) => Err(error),
        };
        with_buffer(res, buf)
    }
}

} // verus!
