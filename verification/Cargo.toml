[package]
name = "arcella_broker"
version = "0.1.0"
edition = "2021"
publish = false

[dependencies]
anyhow = "1"
arc-swap = "1"
bytes = "1"
clap = { version = "4", features = ["derive"] }
dashmap = "*"
iradix = "*"
parking_lot = "0.12"
serde = { version = "1", features = ["derive"] }
thiserror = "*"
tokio = { version = "1", features = ["sync", "rt", "rt-multi-thread", "time", "macros", "io-util"] }
tracing = "0.1"
