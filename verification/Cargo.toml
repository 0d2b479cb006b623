[package]
name = "halloween_game"
version = "0.1.0"
edition = "2021"
publish = false

[dependencies]
base64 = "=0.22.1"
mongodb = "=3.9.1"
rand = "=0.8.8"
serde_json = { version = "=1.0.154", features = ["preserve_order"] }
sha1 = "=0.10.7"
tokio = { version = "=1.54.1", features = ["full"] }
