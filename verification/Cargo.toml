[package]
name = "livecap"
version = "0.1.0"
edition = "2021"
publish = false

[dependencies]
rand = "0.8"
chrono = "0.4"
serde = { version = "1", features = ["derive"] }
log = "0.4"
tokio = { version = "1", features = ["rt-multi-thread", "macros", "time", "process", "io-util", "sync"] }
async-trait = "0.1"
async-ffmpeg-sidecar = "*"
sqlx = { version = "0.8", default-features = false, features = ["sqlite", "runtime-tokio"] }
