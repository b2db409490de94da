[package]
name = "koto_audio"
version = "0.1.0"
edition = "2021"
publish = false

[dependencies]
rtrb = "0.3"
parking_lot = "0.12"
cpal = "0.15"
midir = "0.10"
serde = { version = "1", features = ["derive"] }
serde_json = "1"
thiserror = "1"
anyhow = "1"
tracing = "0.1"
tracing-subscriber = "0.3"
