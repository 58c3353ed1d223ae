[package]
name = "clashrw"
version = "0.1.0"
edition = "2021"
publish = false

[dependencies]
anyhow = "1"
axum = "0.8"
axum-server = "*"
clap = { version = "4", features = ["cargo"] }
env_logger = "0.11"
log = "0.4"
notify = "*"
oneshot = "0.1"
redis = { version = "*", features = ["tokio-comp"] }
reqwest = { version = "0.12", default-features = false, features = ["rustls-tls"] }
serde = { version = "1", features = ["derive"] }
serde_json = "1"
serde_yaml = "0.9"
sha256 = "1"
tokio = { version = "1", features = ["full"] }
tower = "*"
tower-http = { version = "*", features = ["trace"] }
