//! Errors of operations, and results that hand the buffer back.

use vstd::prelude::*;

verus! {

/// Why the bytes of a received message were rejected.
#[derive(Clone, Copy, Debug, PartialEq, Eq, Structural)]
pub enum InvalidData {
    /// Fewer bytes than the header takes.
    HeaderTooSmall,
    /// Fewer bytes than header, reserved areas and payload take together.
    BufferTooSmall { expected: usize, got: usize },
    /// The name is not an IPv4 or IPv6 socket address.
    InvalidSocketAddress,
    /// The name is shorter than the shortest socket address.
    NameTooSmall,
}

/// Why an operation failed.
#[derive(Clone, Copy, Debug, PartialEq, Eq, Structural)]
pub enum Error {
    /// The kernel reported this error number.
    Os(i32),
    /// The kernel handed over data that cannot be understood.
    InvalidData(InvalidData),
    /// A collection of buffers is registered already.
    AlreadyRegistered,
    /// No collection of buffers of this sort is registered.
    NotRegistered,
    /// Buffers of the collection are in use by operations in flight.
    BuffersInUse,
}

/// An error together with the buffer that the failed operation was given.
#[derive(Debug)]
pub struct BufError<B>(pub Error, pub B);

/// The result of an operation that was given a buffer: the buffer comes back
/// whether the operation succeeded or not.
pub type BufResult<T, B> = Result<(T, B), BufError<B>>;

/// The result without the buffer.
pub open spec fn without_buffer<T, B>(result: BufResult<T, B>) -> Result<T, Error> {
    match result {
        Ok((value, _)) => Ok(value),
        Err(BufError(error, _)) => Err(error),
    }
}

/// Puts the buffer of an operation next to the operation's result.
pub fn with_buffer<T, B>(result: Result<T, Error>, buf: B) -> (r: BufResult<T, B>)
    ensures
        r == (match result {
            Ok(value) => Ok::<(T, B), BufError<B>>((value, buf)),
            Err(error) => Err(BufError(error, buf)),
        }),
{
    match result {
        Ok(value) => Ok((value, buf)),
        Err(error) => Err(BufError(error, buf)),
    }
}

} // verus!
