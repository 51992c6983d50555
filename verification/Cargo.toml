[package]
name = "hubu_core"
version = "0.1.0"
edition = "2021"
publish = false

[dependencies]
chrono = "0.4"
sha2 = "0.10"
uuid = { version = "1", features = ["v4"] }
serde = { version = "1", features = ["derive"] }
serde_json = "1"
serde_yaml_ng = "*"
rusqlite = { version = "*", features = ["bundled"] }
thiserror = "*"

[dev-dependencies]
tempfile = "*"
