[package]
name = "todo_store"
version = "0.1.0"
edition = "2021"
publish = false

[dependencies]
sled = "0.34"
bincode = "1.3"
serde = { version = "1", features = ["derive"] }
serde_json = "1"
anyhow = "1"
axum = "0.7"
maud = { version = "0.26", features = ["axum"] }
tokio = { version = "1", features = ["macros", "rt-multi-thread", "net", "sync"] }
tracing-subscriber = "0.3"
