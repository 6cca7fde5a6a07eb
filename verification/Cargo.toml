[package]
name = "rusty_attachments"
version = "0.1.0"
edition = "2021"
publish = false

[dependencies]
xxhash-rust = { version = "=0.8.19", features = ["xxh3"] }
globset = "=0.4.21"
serde = { version = "=1.0.229", features = ["derive"] }
serde_json = "=1.0.154"
uuid = { version = "=1.29.0", features = ["v4"] }
chrono = "=0.4.45"
filetime = "=0.2.29"
walkdir = "=2.5.0"
thiserror = "=1.0.69"
async-trait = "=0.1.92"
futures = "=0.3.34"
rusqlite = "=0.41.1"
log = "=0.4.35"
tokio = { version = "1", features = ["sync", "rt"] }
