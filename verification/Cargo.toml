[package]
name = "memos"
version = "0.1.0"
edition = "2021"
publish = false

[dependencies]
uuid = { version = "1", features = ["v4", "serde"] }
chrono = { version = "0.4", features = ["serde"] }
serde = { version = "1", features = ["derive"] }
serde_json = "1"
thiserror = "1"
tokio = { version = "1", features = ["full"] }
async-trait = "0.1"
tracing = "0.1"
rusqlite = { version = "0.31", features = ["bundled"] }
tantivy = "0.22"
hnsw = "0.6"
space = "0.10"

[dev-dependencies]
tempfile = "3"
