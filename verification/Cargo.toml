[package]
name = "simpledash_client"
version = "0.3.0"
edition = "2021"
publish = false

[dependencies]
serde = { version = "*", features = ["derive"] }
serde_json = "*"
reqwest = { version = "*", default-features = false, features = ["blocking"] }
tungstenite = "*"
url = "*"
dialoguer = "*"
colored = "*"
cli-table = "*"
