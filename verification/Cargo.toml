[package]
name = "drivechain"
version = "0.1.0"
edition = "2021"
publish = false

[dependencies]
base64 = "*"
bitcoin = { version = "=0.32.102", features = ["serde"] }
hex = "=0.4.3"
http = "*"
jsonrpsee = { version = "=0.26.1", features = ["http-client", "macros"] }
serde = { version = "*", features = ["derive"] }
serde_json = "*"
thiserror = "*"
tokio = { version = "*", features = ["time", "rt"] }
