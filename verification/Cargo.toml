[package]
name = "harmony"
version = "0.1.0"
edition = "2021"
publish = false

[dependencies]
anyhow = "1"
async-trait = "0.1"
clap = { version = "4", features = ["derive"] }
env_logger = "0.11"
exn = "*"
futures = "0.3"
irc = { version = "1", default-features = false, features = ["ctcp", "tls-rust"] }
log = "0.4"
serde = { version = "1", features = ["derive"] }
serenity = { version = "0.12", default-features = false, features = ["builder", "cache", "client", "gateway", "model", "http", "rustls_backend", "utils"] }
tokio = { version = "1", features = ["macros", "rt-multi-thread", "sync", "signal", "time"] }
toml = "0.8"
