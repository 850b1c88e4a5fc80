[package]
name = "tokio_uring"
version = "0.5.0"
edition = "2021"
publish = false

[dependencies]
io-uring = "0.7"
libc = "0.2"
socket2 = { version = "0.6", features = ["all"] }
tokio = { version = "1", features = ["sync", "macros", "rt"] }
