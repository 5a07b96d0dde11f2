[package]
name = "socks5_front"
version = "0.1.0"
edition = "2021"
publish = false

[dependencies]
log = "*"
quinn = "*"
thiserror = "*"
tokio = { version = "*", features = ["net", "io-util", "sync", "rt-multi-thread", "macros"] }
