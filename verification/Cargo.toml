[package]
name = "magiccollection"
version = "0.1.0"
edition = "2021"
publish = false

[dependencies]
chrono = "0.4"
log = "0.4"
reqwest = { version = "0.12", features = ["blocking", "json"] }
rusqlite = { version = "0.32", features = ["bundled"] }
serde = { version = "1", features = ["derive"] }
serde_json = "1"
sha2 = "0.10"
uuid = { version = "1", features = ["v4"] }
