[package]
name = "gaggle"
version = "0.1.0"
edition = "2021"
publish = false

[dependencies]
sha2 = "=0.10.9"
uuid = { version = "=1.29.0", features = ["v4"] }
serde = { version = "=1.0.229", features = ["derive"] }
serde_json = "=1.0.154"
reqwest = { version = "=0.12.28", default-features = false }
url = "=2.5.8"
chrono = "=0.4.45"
dashmap = "=6.2.1"
rusqlite = { version = "=0.31.0", features = ["bundled"] }
thiserror = "=1.0.69"
anyhow = "=1.0.104"
tokio = { version = "=1.54.1", features = ["rt-multi-thread", "macros", "time", "sync"] }
