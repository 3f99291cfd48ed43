[package]
name = "bevy_blender_utils"
version = "0.1.0"
edition = "2021"
publish = false

[dependencies]
serde = { version = "1", features = ["derive"] }
serde_json = "1"
thiserror = "1"
bevy = { version = "0.11", default-features = false, features = ["bevy_asset", "bevy_scene"] }
