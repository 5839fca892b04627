[package]
name = "chat_bridge"
version = "0.1.0"
edition = "2021"
publish = false

[dependencies]
serde_json = "1"
base64 = "0.13"
serde = { version = "1", features = ["derive"] }
async-std = { version = "1", features = ["attributes"] }
async-tungstenite = { version = "0.13", features = ["async-std-runtime", "async-tls"] }
futures = "0.3"
http = "0.2"
http-types = "2"
surf = "2"
