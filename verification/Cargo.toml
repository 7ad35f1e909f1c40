[package]
name = "valence"
version = "0.1.0"
edition = "2021"
publish = false

[dependencies]
anyhow = "=1.0.104"
byteorder = "=1.5.0"
egui = { version = "=0.37.0", default-features = false }
flume = "=0.12.0"
parking_lot = "=0.12.5"
serde = { version = "=1.0.229", features = ["derive"] }
time = { version = "=0.3.55", features = ["local-offset"] }
tokio = { version = "=1.54.1", features = ["net", "rt", "sync", "time", "macros", "io-util"] }
tracing = "=0.1.44"
