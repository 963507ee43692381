[package]
name = "hrm_system"
version = "0.1.0"
edition = "2021"
publish = false

[dependencies]
base64 = "*"
rusqlite = { version = "*", features = ["bundled"] }
serde = { version = "*", features = ["derive"] }
serde_json = "*"
