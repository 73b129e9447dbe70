[package]
name = "drasi_server"
version = "0.1.0"
edition = "2021"
publish = false

[dependencies]
regex = "*"
serde = { version = "*", features = ["derive"] }
serde_json = "*"
serde_yaml = "*"
console = "*"
indicatif = "*"
drasi-plugin-sdk = "*"
drasi-lib = "*"
