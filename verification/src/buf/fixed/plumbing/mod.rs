//! Bookkeeping of the buffers in a registered collection.

pub mod pool;
pub mod registry;
pub mod slots;
