[package]
name = "vox_lab"
version = "0.1.0"
edition = "2021"
publish = false

[dependencies]
serde_json = "1"
serde = { version = "1", features = ["derive"] }
reqwest = { version = "0.12", default-features = false, features = ["blocking", "json", "multipart", "rustls-tls"] }
anyhow = "1"
clap = { version = "4", features = ["derive"] }
tracing = "0.1"
env_logger = "0.11"
