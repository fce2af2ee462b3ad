[package]
name = "nanodb"
version = "0.1.0"
edition = "2021"
publish = false

[dependencies]
dashmap = "*"
base64 = "*"
tokio = { version = "1", features = ["full"] }
axum = "*"
serde = { version = "1", features = ["derive"] }
