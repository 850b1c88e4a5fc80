//! The decision-making half of an `io_uring` runtime: which buffers of a
//! registered collection are free, what each operation asks of the kernel, and
//! what each completion means for the buffers involved.
//!
//! Memory is described by plain addresses and lengths, requests to the kernel by
//! the [`driver::sqe::Sqe`] type. Performing the requests is left to the caller.

pub mod buf;
pub mod compat;
pub mod driver;
pub mod error;
pub mod io;
