//! The operations: what each asks of the kernel and what its completion means.

pub mod effects;
pub mod laws;
pub mod provide_buffers;
pub mod read_fixed;
pub mod read_write;
pub mod recv_from_multishot;
pub mod shared_fd;
pub mod sockaddr;
pub mod write_fixed;
