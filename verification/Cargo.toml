[package]
name = "forge_domain"
version = "0.1.0"
edition = "2021"
publish = false

[dependencies]
serde_json = "=1.0.151"
anyhow = "1"
clap = { version = "4", features = ["derive"] }
inquire = "*"
strum = "*"
strum_macros = "*"
tracing = "0.1"
tracing-appender = "0.2"
tracing-subscriber = { version = "0.3", features = ["env-filter"] }
