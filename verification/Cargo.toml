[package]
name = "bevy_shader"
version = "0.1.0"
edition = "2021"
publish = false

[dependencies]
wesl = "0.3.2"
bevy_asset = "=0.20.1"
bevy_reflect = "=0.20.1"
bevy_utils = "=0.20.1"
serde = { version = "1", features = ["derive"] }
thiserror = "2"
tracing = "0.1"
