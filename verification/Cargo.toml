[package]
name = "chat_cache"
version = "0.1.0"
edition = "2021"
publish = false

[dependencies]
chrono = "*"
dashmap = "*"
serde = { version = "*", features = ["derive"] }
tokio = { version = "*", features = ["rt", "rt-multi-thread", "sync", "macros"] }
