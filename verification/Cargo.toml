[package]
name = "bft_node"
version = "0.1.0"
edition = "2021"
publish = false

[dependencies]
bincode = "1"
bytes = "1"
clap = "2"
log = "0.4"
serde = { version = "1", features = ["derive"] }
serde_json = "1"
serde_yaml = "0.8"
simple_logger = "1"
tokio = { version = "1", features = ["rt-multi-thread", "net", "io-util", "sync", "time"] }
tokio-util = { version = "0.7", features = ["codec"] }
toml = "0.5"
