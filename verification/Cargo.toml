[package]
name = "brushworks"
version = "0.1.0"
edition = "2021"
publish = false

[dependencies]
bevy = { version = "=0.17.3", default-features = false, features = ["std", "bevy_pbr", "bevy_ui", "bevy_text", "bevy_scene", "default_font", "bevy_window"] }
bevy_rapier3d = { version = "=0.32.0", default-features = false, features = ["dim3", "async-collider"] }
