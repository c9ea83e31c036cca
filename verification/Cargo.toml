[package]
name = "slava"
version = "0.1.0"
edition = "2021"
publish = false

[dependencies]
crossbeam = "*"
libc = "*"
tokio = { version = "*", default-features = false, features = ["io-util"] }
