[package]
name = "epub_core"
version = "0.1.0"
edition = "2021"
publish = false

[dependencies]
argon2 = { version = "0.5", features = ["std"] }
base64 = "0.22"
rbook = { version = "0.6", features = ["threadsafe"] }
regex = "1"
scraper = "*"
serde = { version = "1", features = ["derive"] }
serde_json = "1"
sha2 = "0.10"
tokio = { version = "1", features = ["fs", "rt", "rt-multi-thread", "macros"] }
walkdir = "2"
