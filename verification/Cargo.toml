[package]
name = "game_plugin"
version = "0.1.0"
edition = "2021"
publish = false

[dependencies]
anyhow = "1"
bevy = { version = "0.7", default-features = false, features = ["render", "bevy_winit", "png", "x11"] }
bevy_asset_loader = "0.11"
heron = { version = "3", features = ["2d"] }
rand = "0.8"
ron = "0.7"
serde = { version = "1", features = ["derive"] }
