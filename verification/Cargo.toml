[package]
name = "moq_quic"
version = "0.1.0"
edition = "2021"
publish = false

[dependencies]
dashmap = "=6.2.1"
libmpv2-sys = "=4.0.1"
log = "=0.4.34"
once_cell = "=1.21.4"
parking_lot = "=0.12.5"
quinn = { version = "=0.11.12", default-features = false, features = ["runtime-tokio", "rustls-ring"] }
rustls = { version = "=0.23.46", default-features = false, features = ["ring", "std"] }
tokio = { version = "=1.54.1", features = ["rt-multi-thread", "sync", "time", "net", "macros"] }
url = "=2.5.8"
web-transport-quinn = "=0.13.5"
