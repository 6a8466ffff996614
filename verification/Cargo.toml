[package]
name = "sd-core"
version = "0.1.0"
edition = "2021"
publish = false

[dependencies]
async-stream = "=0.3.6"
chrono = { version = "=0.4.45", features = ["serde"] }
futures-core = "=0.3.34"
globset = "=0.4.20"
rmp-serde = "=1.3.1"
rspc = "=0.1.4"
serde = { version = "=1.0.229", features = ["derive"] }
serde_json = "=1.0.154"
thiserror = "=1.0.69"
tokio = { version = "=1.54.1", features = ["fs", "sync", "rt", "macros", "time"] }
tracing = "=0.1.44"
