[package]
name = "circuit_chunk"
version = "0.1.0"
edition = "2021"
publish = false

[dependencies]
bevy = { version = "=0.7.0", default-features = false, features = ["render", "bevy_winit", "x11"] }
bevy-debug-text-overlay = "=2.0.0"
bevy_flycam = "=0.7.0"
tracing-attributes = "=0.1.23"
