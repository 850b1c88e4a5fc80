//! Handing a group of buffers to the kernel, for it to pick from.

use crate::driver::cqe::CqeResult;
use crate::driver::sqe::{
    low16, low32_signed, truncate16, truncate32_signed, Op, Sqe,
};
use crate::error::Error;
use vstd::prelude::*;

verus! {

/// Provides `nbufs` buffers of `len` bytes each, one after the other from `addr`
/// on, to the group `bgid`, with ids from `bid` on.
#[derive(Clone, Copy, Debug, PartialEq, Eq, Structural)]
pub struct ProvideBuffers {
    pub addr: usize,
    pub len: i32,
    pub nbufs: u16,
    pub bgid: u16,
    pub bid: u16,
}

/// `sqe` provides `nbufs` buffers of `len` bytes each, from `addr` on, to the group
/// `bgid`, with ids from `bid` on.
pub open spec fn provides(
    sqe: Sqe,
    addr: usize,
    len: usize,
    nbufs: usize,
    bgid: u16,
    bid: u16,
) -> bool {
    sqe == (Sqe::ProvideBuffers {
        addr,
        buf_len: low32_signed(len) as i32,
        nbufs: low16(nbufs) as u16,
        bgid,
        bid,
    })
}

impl ProvideBuffers {
    /// The operation and its submission. The length and the number of buffers are
    /// cut down to the width of their fields.
    pub fn provide_buffers(
        addr: usize,
        len: usize,
        nbufs: usize,
        bgid: u16,
        bid: u16,
    ) -> (r: Op<ProvideBuffers>)
        ensures
            provides(r.sqe, addr, len, nbufs, bgid, bid),
            r.data.addr == addr,
            r.data.len == low32_signed(len),
            r.data.nbufs == low16(nbufs),
            r.data.bgid == bgid,
            r.data.bid == bid,
            r.sqe == (Sqe::ProvideBuffers {
                addr: r.data.addr,
                buf_len: r.data.len,
                nbufs: r.data.nbufs,
                bgid: r.data.bgid,
                bid: r.data.bid,
            }),
    {
        let data = ProvideBuffers {
            addr,
            len: truncate32_signed(len),
            nbufs: truncate16(nbufs),
            bgid,
            bid,
        };
        let sqe = Sqe::ProvideBuffers {
            addr: data.addr,
            buf_len: data.len,
            nbufs: data.nbufs,
            bgid: data.bgid,
            bid: data.bid,
        };
        Op { data, sqe }
    }

    /// The outcome: whether the kernel took the buffers.
    pub fn complete(self, cqe: CqeResult) -> (r: Result<(), Error>)
        ensures
            r == (match cqe.result {
                Ok(_) => Ok::<(), Error>(()),
                Err(error) => Err(error),
            }),
    {
        match cqe.result {
            Ok(_) => Ok(()),
            Err(error) => Err(error),
        }
    }
}

} // verus!
