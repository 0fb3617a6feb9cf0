[package]
name = "sysmon_extract"
version = "0.1.0"
edition = "2021"
publish = false

[dependencies]
base64 = "=0.21.7"
chrono = { version = "=0.4.45", features = ["serde"] }
csv = "=1.4.0"
reqwest = { version = "=0.11.27", default-features = false, features = ["json", "rustls-tls"] }
rocksdb = { version = "=0.21.0", default-features = false }
serde = { version = "=1.0.229", features = ["derive"] }
serde_json = "=1.0.154"
tokio = { version = "=1.54.1", features = ["macros", "rt-multi-thread"] }
