[package]
name = "rune_indexer"
version = "0.1.0"
edition = "2021"
publish = false

[dependencies]
bitcoin = "=0.32.102"
bitcoincore-rpc = "=0.19.0"
clap = { version = "=4.6.7", features = ["derive"] }
hex = "=0.4.3"
ordinals = "=0.0.17"
rustc-hash = "=2.1.3"
serde = { version = "=1.0.229", features = ["derive"] }
serde_json = "=1.0.154"
tokio = { version = "=1.54.1", features = ["net", "io-util", "sync", "time", "rt-multi-thread", "macros"] }
tokio-stream = "=0.1.19"
tokio-util = { version = "=0.7.20", features = ["codec"] }
tracing = "=0.1.44"
uuid = { version = "=1.29.0", features = ["v4"] }

[dev-dependencies]
borsh = "=1.8.1"
