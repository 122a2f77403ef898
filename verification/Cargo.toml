[package]
name = "snowfallio"
version = "0.1.0"
edition = "2021"
publish = false

[dependencies]
io-uring = "*"
libc = "*"
socket2 = { version = "*", features = ["all"] }
