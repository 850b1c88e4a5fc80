//! What passes between the runtime and the kernel, as plain values.

pub mod context;
pub mod cqe;
pub mod sqe;
