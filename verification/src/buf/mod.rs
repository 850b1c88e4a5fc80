//! Buffers that operations work on.

pub mod bounded;
pub mod buffer;
pub mod fixed;
pub mod slice;
