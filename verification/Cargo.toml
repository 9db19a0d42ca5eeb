[package]
name = "snowdrift"
version = "0.1.0"
edition = "2021"
publish = false

[dependencies]
rand = "=0.8.8"
bevy = { version = "=0.9.1", default-features = false, features = ["bevy_asset", "render", "bevy_winit", "png", "x11"] }
