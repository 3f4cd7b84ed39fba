[package]
name = "spiderbot"
version = "0.1.0"
edition = "2021"
publish = false

[dependencies]
bevy = { version = "=0.19.1", default-features = false, features = ["std", "bevy_log", "bevy_asset", "bevy_color", "bevy_camera", "bevy_window", "bevy_image", "bevy_mesh", "bevy_light", "bevy_gizmos", "bevy_text", "bevy_ui", "keyboard", "mouse"] }
bevy_rapier3d = { version = "=0.36.0", default-features = false, features = ["dim3"] }
serde = { version = "1", features = ["derive"] }
serde_json = "1"
