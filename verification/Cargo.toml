[package]
name = "secret_vault"
version = "0.1.0"
edition = "2021"
publish = false

[dependencies]
ring = "*"
zeroize = "*"
serde = { version = "*", features = ["derive"] }
serde_json = "*"
tokio = { version = "*", features = ["rt", "sync", "time", "macros"] }
chrono = "*"
bytes = "*"

[dev-dependencies]
hex = "*"
base64 = "*"
