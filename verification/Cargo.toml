[package]
name = "relic"
version = "0.1.0"
edition = "2021"
publish = false

[dependencies]
quick-xml = "0.37"
crc32fast = "1"
md-5 = "0.10"
sha2 = "0.10"
toml = "0.8"
serde = { version = "1", features = ["derive"] }
serde_json = "1"
rusqlite = { version = "0.32", features = ["bundled"] }
walkdir = "2"
zip = { version = "2", default-features = false, features = ["deflate"] }
image = { version = "0.25", default-features = false, features = ["png", "jpeg", "webp"] }
reqwest = { version = "0.12", default-features = false, features = ["blocking"] }
clap = { version = "4", features = ["derive"] }
thiserror = "1"
