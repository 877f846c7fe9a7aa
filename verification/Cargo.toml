[package]
name = "hivecore"
version = "0.1.0"
edition = "2021"
publish = false

[dependencies]
regex = "=1.13.1"
serde = { version = "=1.0.229", features = ["derive"] }
serde_json = "=1.0.154"
uuid = { version = "=1.29.0", features = ["v4"] }
chrono = "=0.4.45"
tokio = { version = "=1.54.1", features = ["rt", "rt-multi-thread", "macros", "fs", "process", "time", "sync", "io-util"] }
thiserror = "=1.0.69"
chromiumoxide = { version = "=0.7.0", default-features = false, features = ["tokio-runtime", "bytes"] }
futures = "=0.3.34"

[dev-dependencies]
tempfile = "=3.27.0"
