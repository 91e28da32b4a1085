[package]
name = "tapiti"
version = "0.1.0"
edition = "2021"
publish = false

[dependencies]
anyhow = "1"
rusqlite = { version = "*", features = ["bundled"] }
serde = { version = "1", features = ["derive"] }
serde_json = "1"
thiserror = "*"
tokio = { version = "1", features = ["full"] }
tracing = "0.1"
tracing-subscriber = "0.3"
