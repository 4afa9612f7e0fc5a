[package]
name = "async-dpdk"
version = "0.1.0"
edition = "2021"
publish = false

[dependencies]
bytes = "1"
lazy_static = "1"
log = "0.4"
thiserror = "1"
tokio = { version = "1", features = ["rt-multi-thread", "sync", "macros", "time"] }
