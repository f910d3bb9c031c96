[package]
name = "a3s_event"
version = "0.1.0"
edition = "2021"
publish = false

[dependencies]
async-nats = "=0.51.0"
async-trait = "=0.1.92"
flume = "=0.12.0"
futures = "=0.3.34"
getrandom = "=0.4.3"
serde = { version = "=1.0.229", features = ["derive"] }
serde_json = "=1.0.154"
tokio = { version = "=1.54.1", features = ["sync", "time", "rt", "macros"] }
tracing = "=0.1.44"
uuid = { version = "=1.29.0", features = ["v4"] }
