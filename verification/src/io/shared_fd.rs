//! The file descriptor that an operation works on.

use vstd::prelude::*;

verus! {

/// The number of a file descriptor that operations in flight share. It does not own the
/// file: whoever submits the operations keeps it open.
#[derive(Clone, Copy, Debug, PartialEq, Eq, Structural)]
pub struct SharedFd {
    pub fd: i32,
}

impl SharedFd {
    /// Wraps a file descriptor.
    pub fn new(fd: i32) -> (r: SharedFd)
        ensures
            r.fd == fd,
    {
        SharedFd { fd }
    }

    /// The number of the file descriptor.
    pub fn raw_fd(&self) -> (r: i32)
        ensures
            r == self.fd,
    {
        self.fd
    }
}

} // verus!
