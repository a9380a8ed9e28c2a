[package]
name = "tgstore"
version = "0.1.0"
edition = "2021"
publish = false

[dependencies]
serde = { version = "=1.0.229", features = ["derive"] }
serde_json = "=1.0.151"
teloxide = "=0.17.0"
reqwest = "=0.12.28"
tokio = { version = "=1.53.2", features = ["full"] }
axum = { version = "=0.8.9", features = ["multipart"] }
axum_typed_multipart = "=0.16.7"
tokio-util = { version = "=0.7.19", features = ["io"] }
dotenvy = "=0.15.7"
takecell = "=0.1.1"
