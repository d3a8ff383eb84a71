[package]
name = "specprobe"
version = "0.9.0"
edition = "2021"
publish = false

[dependencies]
serde = { version = "1", features = ["derive"] }
serde_json = "1"
clap = { version = "4", features = ["derive"] }
tokio = { version = "1", features = ["full"] }
reqwest = { version = "0.12", default-features = false, features = ["rustls-tls"] }
rusqlite = { version = "0.32", features = ["bundled"] }
indicatif = "0.17"
sha2 = "0.10"
base64 = "0.22"
minijinja = "2"
toml = "0.8"
anyhow = "1"
thiserror = "2"
