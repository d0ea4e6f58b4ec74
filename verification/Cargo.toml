[package]
name = "tnua_integration"
version = "0.1.0"
edition = "2021"
publish = false

[dependencies]
avian3d = { version = "0.2", default-features = false, features = ["3d", "f32"] }
bevy_xpbd_2d = { version = "0.4", default-features = false, features = ["2d", "f32"] }
bevy = { version = "0.15", default-features = false }
