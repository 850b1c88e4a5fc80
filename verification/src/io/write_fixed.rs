//! Writing to a file from a registered buffer.

use crate::buf::bounded::{BoundedBuf, Window};
use crate::driver::cqe::{byte_count, CqeResult};
use crate::driver::sqe::{low32, truncate32, Op, Sqe};
use crate::error::{with_buffer, without_buffer, BufError, BufResult, Error};
use crate::io::shared_fd::SharedFd;
use vstd::prelude::*;

verus! {

/// A write from a registered buffer, in flight.
pub struct WriteFixed<T> {
    /// The file to write. Whoever submits the operation keeps it open while the operation
    /// is in flight.
    pub fd: SharedFd,
    /// The buffer in flight.
    pub buf: T,
}

/// `sqe` writes the used bytes in a window on a registered buffer to `offset`.
pub open spec fn writes_window(sqe: Sqe, fd: SharedFd, window: Window, offset: u64) -> bool {
    sqe == (Sqe::WriteFixed {
        fd: fd.fd,
        addr: window.addr() as usize,
        len: low32(window.used() as usize) as u32,
        buf_index: window.buf.fixed_index()->0,
        offset,
    })
}

impl<T: BoundedBuf> Op<WriteFixed<T>> {
    /// A write of the used bytes in a window on a registered buffer, from `offset`
    /// on.
    pub fn write_fixed_at(fd: &SharedFd, buf: T, offset: u64) -> (r: Op<WriteFixed<T>>)
        requires
            buf.window().wf(),
            buf.window().buf.fixed_index() is Some,
        ensures
            r.data.fd == *fd,
            r.data.buf == buf,
            writes_window(r.sqe, *fd, buf.window(), offset),
            r.sqe == (Sqe::WriteFixed {
                fd: fd.fd,
                addr: buf.window().addr() as usize,
                len: low32(buf.window().used() as usize) as u32,
                buf_index: buf.window().buf.fixed_index()->0,
                offset,
            }),
    {
        let addr: usize = buf.stable_ptr();
        let len: usize = buf.bytes_init();
        let buf_index: u16 = buf.get_buf().fixed_index().unwrap();
        let sqe = Sqe::WriteFixed {
            fd: fd.raw_fd(),
            addr,
            len: truncate32(len),
            buf_index,
            offset,
        };
        Op { data: WriteFixed { fd: *fd, buf }, sqe }
    }
}

impl<T> WriteFixed<T> {
    /// The outcome: how many bytes were written, and the buffer as it was.
    pub fn complete(self, cqe: CqeResult) -> (r: BufResult<usize, T>)
        ensures
            without_buffer(r) == byte_count(cqe.result),
            match cqe.result {
                Ok(n) => r == Ok::<(usize, T), BufError<T>>((n as usize, self.buf)),
                Err(error) => r == Err::<(usize, T), BufError<T>>(BufError(error, self.buf)),
            },
    {
        let res: Result<usize, Error> = match cqe.result {
            Ok(n) => Ok(n as usize),
            Err(error) => Err(error),
        };
        with_buffer(res, self.buf)
    }
}

} // verus!
