[package]
name = "curve_tessellation"
version = "0.1.0"
edition = "2021"
publish = false

[dependencies]
bevy = { version = "0.9", default-features = false, features = ["bevy_asset", "bevy_core_pipeline", "bevy_render", "bevy_sprite"] }
bytemuck = { version = "1", features = ["derive"] }
itertools-num = "0.1"
