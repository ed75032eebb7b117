[package]
name = "espcam_logger"
version = "0.1.0"
edition = "2021"
publish = false

[dependencies]
anyhow = "*"
axum = { version = "*", features = ["multipart"] }
chrono = "*"
embedded-hal = "*"
embedded-sdmmc = "*"
embedded-svc = "*"
env_logger = "*"
esp-idf-svc = "*"
esp-idf-sys = "*"
log = "*"
serde = { version = "*", features = ["derive"] }
serde_json = "*"
tokio = { version = "*", features = ["macros", "rt-multi-thread", "fs", "io-util", "net"] }
