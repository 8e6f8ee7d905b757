[package]
name = "oscquery"
version = "0.1.0"
edition = "2021"
publish = false

[dependencies]
rosc = "*"
serde = { version = "1", features = ["derive"] }
serde_json = "1"
tungstenite = "*"
