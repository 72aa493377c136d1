[package]
name = "proof_gateway"
version = "0.1.0"
edition = "2021"
publish = false

[dependencies]
anyhow = "1"
axum = { version = "0.7", features = ["multipart"] }
base64 = "0.21"
bincode = { version = "2", features = ["serde"] }
lambdaworks-math = "*"
log = "0.4"
risc0-zkvm = { version = "*", default-features = false }
serde = { version = "1", features = ["derive"] }
serde_json = "1"
tokio = { version = "1", features = ["full"] }
zip = { version = "0.6", default-features = false, features = ["deflate"] }
