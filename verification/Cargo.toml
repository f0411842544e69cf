[package]
name = "tower_rpc"
version = "0.1.0"
edition = "2021"
publish = false

[dependencies]
slab = "0.4"
matchit = "0.7"
tokio = { version = "1", features = ["full"] }
tokio-util = { version = "0.7", features = ["full"] }
futures = "0.3"
serde = "1"
serde_json = "1"
bincode = "1"
rmp-serde = "1"
ciborium = "0.2"
parity-tokio-ipc = "0.9"
hyper = { version = "1", features = ["full"] }
hyper-util = { version = "0.1", features = ["full"] }
http-body-util = "0.1"
bytes = "1"
