//! Collections of buffers that are registered with the kernel ahead of use.

pub mod laws;
pub mod plumbing;
pub mod pool;
pub mod registry;
