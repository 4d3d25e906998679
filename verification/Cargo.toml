[package]
name = "transcription_history"
version = "0.1.0"
edition = "2021"
publish = false

[dependencies]
anyhow = "1"
chrono = "0.4"
log = "0.4"
rusqlite = { version = "*", features = ["bundled"] }
rusqlite_migration = "*"
serde = { version = "1", features = ["derive"] }
