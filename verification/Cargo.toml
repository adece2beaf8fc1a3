[package]
name = "bevy_movement"
version = "0.1.0"
edition = "2021"
publish = false

[dependencies]
bevy = { version = "=0.17.3", default-features = false, features = ["bevy_window", "bevy_camera"] }
avian3d = { version = "=0.4.1", default-features = false, features = ["3d", "f32", "parry-f32"] }
