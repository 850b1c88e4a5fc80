//! Submission queue entries and the other requests to the kernel.

use vstd::prelude::*;

verus! {

/// A range of memory, as `readv` and `io_uring_register` take it.
#[derive(Clone, Copy, Debug, PartialEq, Eq, Structural)]
pub struct IoVec {
    pub base: usize,
    pub len: usize,
}

/// The parts of a `msghdr` that a receive operation decides.
#[derive(Clone, Copy, Debug, PartialEq, Eq, Structural)]
pub struct MsgHdr {
    /// Bytes reserved for the name of the sender.
    pub namelen: u32,
    /// Bytes reserved for control data.
    pub controllen: usize,
    /// How many iovecs the header points to.
    pub iovlen: usize,
    /// The length that each of those iovecs has.
    pub iov_len: usize,
}

/// An operation that the kernel is asked to perform.
#[derive(Debug, PartialEq, Eq)]
pub enum Sqe {
    Read { fd: i32, addr: usize, len: u32, offset: u64 },
    Write { fd: i32, addr: usize, len: u32, offset: u64 },
    ReadFixed { fd: i32, addr: usize, len: u32, buf_index: u16, offset: u64 },
    WriteFixed { fd: i32, addr: usize, len: u32, buf_index: u16, offset: u64 },
    Readv { fd: i32, iovecs: Vec<IoVec>, count: u32, offset: u64 },
    Writev { fd: i32, iovecs: Vec<IoVec>, count: u32, offset: u64 },
    ProvideBuffers { addr: usize, buf_len: i32, nbufs: u16, bgid: u16, bid: u16 },
    RecvMsgMulti { fd: i32, msg: MsgHdr, buf_group: u16 },
}

/// A change of the table of registered buffers that the kernel is asked for.
#[derive(Debug, PartialEq, Eq)]
pub enum RegisterRequest {
    /// Make these ranges the registered buffers, numbered from zero.
    Register(Vec<IoVec>),
    /// Drop the registered buffers.
    Unregister,
}

/// An operation with the entry that submits it. The data stays alive until the
/// completion arrives.
pub struct Op<T> {
    pub data: T,
    pub sqe: Sqe,
}

/// The low 32 bits of a length, which is what the length field of an entry holds.
pub open spec fn low32(x: usize) -> int {
    x as int % 0x1_0000_0000
}

/// The low 16 bits of a number.
pub open spec fn low16(x: usize) -> int {
    x as int % 0x1_0000
}

/// The low 32 bits of a length, read as a signed number.
pub open spec fn low32_signed(x: usize) -> int {
    if low32(x) < 0x8000_0000 {
        low32(x)
    } else {
        low32(x) - 0x1_0000_0000
    }
}

/// Truncates a length to 32 bits.
pub fn truncate32(x: usize) -> (r: u32)
    ensures
        r == low32(x),
{
    (x as u64 % 0x1_0000_0000) as u32
}

/// Truncates a number to 16 bits.
pub fn truncate16(x: usize) -> (r: u16)
    ensures
        r == low16(x),
{
    (x % 0x1_0000) as u16
}

/// Truncates a length to 32 bits and reads them as a signed number.
pub fn truncate32_signed(x: usize) -> (r: i32)
    ensures
        r == low32_signed(x),
{
    let low: i64 = truncate32(x) as i64;
    if low < 0x8000_0000 {
        low as i32
    } else {
        (low - 0x1_0000_0000) as i32
    }
}

} // verus!
