[package]
name = "herdr_platform"
version = "0.1.0"
edition = "2021"
publish = false

[dependencies]
libc = "0.2"
portable-pty = "0.9"
tracing = "0.1"
