[package]
name = "geoip_service"
version = "0.1.0"
edition = "2021"
publish = false

[dependencies]
axum = "0.8"
dotenvy = "0.15"
env_logger = "0.11"
flate2 = "1"
log = "0.4"
maxminddb = "*"
reqwest = { version = "0.12", default-features = false, features = ["rustls-tls"] }
serde_json = "1"
tar = "0.4"
tokio = { version = "1", features = ["full"] }
tokio-cron-scheduler = "*"
