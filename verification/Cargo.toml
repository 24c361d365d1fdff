[package]
name = "flashblocks_pending"
version = "0.1.0"
edition = "2021"
publish = false

[dependencies]
alloy-consensus = { version = "=2.5.0", features = ["serde"] }
alloy-eips = "=2.5.0"
alloy-primitives = { version = "=1.7.3", features = ["serde"] }
alloy-rpc-types-eth = { version = "=2.5.0", features = ["serde"] }
alloy-serde = "=2.5.0"
reth-primitives-traits = "=0.8.2"
revm = "=43.0.3"
serde = "=1.0.229"
serde_json = { version = "=1.0.154", features = ["raw_value"] }
tracing = "=0.1.44"
