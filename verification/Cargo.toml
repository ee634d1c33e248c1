[package]
name = "novella"
version = "0.1.0"
edition = "2021"
publish = false

[dependencies]
uuid = { version = "1", features = ["v4"] }
petgraph = "0.6"
chrono = "0.4"
serde = { version = "1", features = ["derive"] }
serde_json = "1"
bincode = { version = "2", features = ["serde"] }
anyhow = "1"
rusqlite = { version = "0.31", features = ["bundled"] }
