[package]
name = "retris"
version = "0.1.0"
edition = "2021"
publish = false

[dependencies]
bevy = { version = "=0.7.0", default-features = false, features = ["bevy_winit", "render", "png", "x11"] }
bevy-inspector-egui = "=0.11.0"
ron = "=0.7.1"
serde = { version = "1", features = ["derive"] }
tracing-attributes = "=0.1.23"
