[package]
name = "trale"
version = "0.1.0"
edition = "2021"
publish = false

[dependencies]
io-uring = "*"
libc = "*"
log = "*"
ringbuffer = "*"
slab = "*"
tokio-stream = { version = "*", default-features = false }
