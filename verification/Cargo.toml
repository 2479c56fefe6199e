[package]
name = "modbus-proxy-rs"
version = "0.1.0"
edition = "2021"
publish = false

[dependencies]
config = "0.15"
futures = "0.3"
log = "0.4"
serde = { version = "1", features = ["derive"] }
tokio = { version = "1", features = ["io-util", "macros", "net", "rt-multi-thread", "signal", "sync", "time"] }
