[package]
name = "gom_decode"
version = "0.1.0"
edition = "2021"
publish = false

[dependencies]
serde = { version = "=1.0.229", features = ["derive"] }
serde_json = "=1.0.154"
strum = { version = "=0.28.0", features = ["derive"] }
assoc = "=0.1.3"
bevy = { version = "=0.17.3", default-features = false }
