[package]
name = "iroh"
version = "0.1.0"
edition = "2021"
publish = false

[dependencies]
bytes = "1"
ed25519-dalek = "2"
n0-future = "*"
n0-watcher = "*"
noq = "*"
noq-proto = "*"
noq-udp = "*"
rustc-hash = "2"
tokio = { version = "1", features = ["macros", "rt", "sync", "time"] }
tokio-util = "0.7"
tracing = "0.1"
