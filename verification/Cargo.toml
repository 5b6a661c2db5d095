[package]
name = "mimalloc-redirect"
version = "0.1.0"
edition = "2021"
publish = false

[dependencies]
libc = "*"
allocator-api2 = "*"
