[package]
name = "lumina"
version = "0.1.0"
edition = "2021"
publish = false

[dependencies]
cfg-if = "1"
clap = { version = "4", features = ["derive"] }
console = "*"
dialoguer = "*"
env_logger = "*"
indicatif = "*"
indicatif-log-bridge = "*"
json-strip-comments = "*"
log = "0.4"
reqwest = { version = "0.12", default-features = false, features = ["json", "rustls-tls"] }
rust-embed = "8"
serde = { version = "1", features = ["derive"] }
serde_json = "1"
thiserror = "*"
tokio = { version = "1", features = ["rt", "macros"] }
zod-rs = "*"
