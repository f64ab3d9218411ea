[package]
name = "harbinger"
version = "0.1.0"
edition = "2021"
publish = false

[dependencies]
anyhow = "1"
base64 = "0.21"
clap = { version = "4", features = ["derive"] }
indicatif = "0.17"
log = "0.4"
md5 = "0.7"
reqwest = { version = "0.11", default-features = false }
rocket = "0.5"
serde = { version = "1", features = ["derive"] }
serde_json = "1"
thiserror = "1"
tokio = { version = "1", features = ["macros"] }
