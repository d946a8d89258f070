[package]
name = "riplakish"
version = "0.1.0"
edition = "2021"
publish = false

[dependencies]
getrandom = "0.2"
axum = "0.7"
axum-client-ip = "0.6"
chrono = "0.4"
dotenv = "0.15"
env_logger = "0.11"
log = "0.4"
serde = { version = "1", features = ["derive"] }
serde_json = "1"
sqlite = "*"
tokio = { version = "1", features = ["full"] }
tower-http = { version = "0.6", features = ["cors"] }
