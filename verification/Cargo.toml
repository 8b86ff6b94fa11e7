[package]
name = "narisha"
version = "0.1.0"
edition = "2021"
publish = false

[dependencies]
serde = { version = "1", features = ["derive"] }
toml = "0.8"
tracing = "0.1"
wayland-backend = "0.3"
wayland-client = "0.31"
wayland-scanner = "0.31"
