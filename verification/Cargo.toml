[package]
name = "velstra"
version = "0.1.0"
edition = "2021"
publish = false

[dependencies]
anyhow = "*"
axum = "*"
clap = { version = "*", features = ["derive"] }
env_logger = "*"
log = "*"
openraft = { version = "0.9", features = ["serde", "storage-v2"] }
reqwest = { version = "*", default-features = false }
serde = { version = "*", features = ["derive"] }
serde_json = "*"
tokio = { version = "*", features = ["full"] }
tokio-stream = "*"
toml = "*"
tonic = "*"
x509-parser = "*"
