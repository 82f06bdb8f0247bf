[package]
name = "yliproxy"
version = "0.1.0"
edition = "2021"
publish = false

[dependencies]
actix-files = "*"
actix-web = "*"
anyhow = "*"
async-process = "*"
regex = "*"
reqwest = "*"
serde = { version = "*", features = ["derive"] }
serenity = "*"
tokio = { version = "*", features = ["full"] }
tracing = "*"
tracing-subscriber = "*"
