[package]
name = "comms"
version = "0.1.0"
edition = "2021"
publish = false

[dependencies]
zmq = "0.10"
prost = "*"
crossbeam-channel = "0.5"
anyhow = "1"
serialport = { version = "4", default-features = false }
tokio = { version = "1", features = ["rt-multi-thread", "macros", "time", "io-util", "sync"] }
tokio-serial = "5"
serde = { version = "1", features = ["derive"] }
serde_json = "1"
