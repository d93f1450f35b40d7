[package]
name = "chatstream"
version = "0.1.0"
edition = "2021"
publish = false

[dependencies]
serde_json = "*"
hmac = "*"
sha2 = "*"
base64 = "*"
serde = { version = "*", features = ["derive"] }
tokio = { version = "*", features = ["rt-multi-thread", "macros", "sync"] }
axum = { version = "*", features = ["multipart"] }
reqwest = { version = "*", default-features = false, features = ["json"] }
uuid = { version = "*", features = ["v4"] }
futures = "*"
tokio-stream = "*"
