[package]
name = "character_controller"
version = "0.1.0"
edition = "2021"
publish = false

[dependencies]
bevy = { version = "0.12", default-features = false }
bevy_xpbd_3d = { version = "0.3", default-features = false, features = ["3d", "f32"] }
