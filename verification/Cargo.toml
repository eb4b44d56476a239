[package]
name = "bus1553"
version = "0.1.0"
edition = "2021"
publish = false

[dependencies]
bytebuffer = "2"
serde = { version = "1", features = ["derive"] }
serde_json = "1"
tokio = { version = "1", features = ["full"] }
