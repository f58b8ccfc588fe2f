[package]
name = "malachite"
version = "0.1.0"
edition = "2021"
publish = false

[dependencies]
sha3 = "=0.10.9"
bytes = "=1.12.1"
prost = "=0.14.4"
bincode = "=1.3.3"
serde = { version = "=1.0.229", features = ["derive"] }
serde_json = "=1.0.154"
rand = "=0.8.8"
redb = "=2.6.4"
tokio = { version = "=1.54.1", features = ["rt-multi-thread", "macros", "net", "io-util", "sync", "time"] }
tokio-util = { version = "=0.7.20", features = ["codec"] }
tendermint-proto = "=0.41.0"
tendermint = "=0.41.0"
libp2p = { version = "=0.54.1", features = ["gossipsub", "floodsub", "identify", "ping", "macros"] }
futures-util = { version = "=0.3.34", features = ["sink"] }
seahash = "4"
