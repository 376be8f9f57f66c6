[package]
name = "blockchain"
version = "0.1.0"
edition = "2021"
publish = false

[dependencies]
serde = { version = "1", features = ["derive"] }
serde_json = "1"
sha3 = "0.10"
time = "0.3"
uuid = { version = "1", features = ["v4"] }
