[package]
name = "monad-peer-discovery"
version = "0.1.0"
edition = "2021"
publish = false

[dependencies]
alloy-rlp = "=0.3.17"
tracing = "0.1"

[dev-dependencies]
hex = "=0.4.3"
