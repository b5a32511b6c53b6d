[package]
name = "voicett"
version = "0.1.0"
edition = "2021"
publish = false

[dependencies]
anyhow = "=1.0.104"
base64 = "=0.22.1"
chrono = { version = "=0.4.45", features = ["serde"] }
cpal = "=0.15.3"
parking_lot = "=0.12.5"
reqwest = { version = "=0.12.28", default-features = false, features = ["json", "multipart", "rustls-tls"] }
rusqlite = { version = "=0.32.1", features = ["bundled"] }
serde = { version = "=1.0.229", features = ["derive"] }
serde_json = "=1.0.154"
symphonia = "=0.5.5"
thiserror = "=1.0.69"
tokio = { version = "=1.54.1", features = ["rt", "sync", "process", "io-util"] }
uuid = { version = "=1.29.0", features = ["v4"] }
