[package]
name = "hent"
version = "0.1.0"
edition = "2021"
publish = false

[dependencies]
bevy = { version = "=0.5.0", default-features = false, features = ["render", "bevy_wgpu", "bevy_winit", "x11"] }
