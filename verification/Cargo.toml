[package]
name = "le_resampler"
version = "0.1.0"
edition = "2021"
publish = false

[dependencies]
regex = "1"
lofty = "*"
rusqlite = "*"
chrono = "*"
walkdir = "*"
log = "*"
env_logger = "*"
serde = { version = "1", features = ["derive"] }
rodio = "*"
