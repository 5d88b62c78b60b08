[package]
name = "platforming_character"
version = "0.1.0"
edition = "2021"
publish = false

[dependencies]
bevy = { version = "=0.12.1", default-features = false, features = ["bevy_asset", "bevy_scene"] }
bevy_xpbd_3d = { version = "=0.3.3", default-features = false, features = ["3d", "f32"] }
strum = { version = "=0.25.0", features = ["derive"] }
strum_macros = "=0.25.3"
