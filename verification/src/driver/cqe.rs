//! Completion queue entries.

use crate::error::Error;
use vstd::prelude::*;

verus! {

/// A completion queue entry: the kernel's answer to one submission.
#[derive(Clone, Copy, Debug, PartialEq, Eq, Structural)]
pub struct Entry {
    /// What the operation returned; an error number, negated, where it failed.
    pub result: i32,
    /// The `IORING_CQE_F_*` bits, with a buffer id in the upper half.
    pub flags: u32,
}

/// A completion whose result has been told apart from its error.
#[derive(Clone, Copy, Debug, PartialEq, Eq)]
pub struct CqeResult {
    pub result: Result<u32, Error>,
    pub flags: u32,
}

/// The value that a raw completion result stands for.
pub open spec fn decoded(result: i32) -> Result<u32, Error> {
    if result >= 0 {
        Ok(result as u32)
    } else {
        Err(Error::Os((-result) as i32))
    }
}

/// The number of bytes that a completion reports, or its error.
pub open spec fn byte_count(result: Result<u32, Error>) -> Result<usize, Error> {
    match result {
        Ok(n) => Ok(n as usize),
        Err(error) => Err(error),
    }
}

impl CqeResult {
    /// Reads a completion queue entry.
    pub fn new(entry: Entry) -> (r: CqeResult)
        requires
            entry.result != i32::MIN,
        ensures
            r.result == decoded(entry.result),
            r.flags == entry.flags,
    {
        let result = if entry.result >= 0 {
            Ok(entry.result as u32)
        } else {
            Err(Error::Os(-entry.result))
        };
        CqeResult { result, flags: entry.flags }
    }
}

/// The id of the buffer that the kernel picked from a provided group, where the
/// flags say that it picked one.
pub open spec fn selected_buffer(flags: u32) -> Option<u16> {
    if flags & 1 != 0 {
        Some((flags >> 16) as u16)
    } else {
        None
    }
}

/// Whether the flags announce further completions of the same submission.
pub open spec fn announces_more(flags: u32) -> bool {
    flags & 2 != 0
}

/// `io_uring::cqueue::buffer_select`: with the lowest bit set
/// (`IORING_CQE_F_BUFFER`) the upper half of the flags is the id of a buffer,
/// without it there is none.
pub assume_specification[ io_uring::cqueue::buffer_select ](flags: u32) -> (r: Option<u16>)
    ensures
        r == selected_buffer(flags),
;

/// `io_uring::cqueue::more`: whether the second lowest bit
/// (`IORING_CQE_F_MORE`) is set.
pub assume_specification[ io_uring::cqueue::more ](flags: u32) -> (r: bool)
    ensures
        r == announces_more(flags),
;

} // verus!
