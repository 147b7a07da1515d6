[package]
name = "punch"
version = "0.1.0"
edition = "2021"
publish = false

[dependencies]
async-shutdown = "0.2"
async-trait = "0.1"
bytes = "1"
kcp = "*"
log = "0.4"
parking_lot = "0.12"
protobuf = "3"
rand = "0.8"
rust-p2p-core = "0.3"
sodiumoxide = "0.2"
tokio = { version = "1", features = ["full"] }
tokio-socks = "0.5"
tokio-util = { version = "0.7", features = ["full"] }
