[package]
name = "velato"
version = "0.1.0"
edition = "2021"
publish = false

[dependencies]
kurbo = { version = "0.11", features = ["serde"] }
peniko = { version = "0.2", features = ["serde"] }
serde = { version = "1", features = ["derive"] }
serde_json = "1"
vello = { version = "0.3", default-features = false }
