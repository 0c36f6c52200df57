[package]
name = "msg_value_bars"
version = "0.1.0"
edition = "2021"
publish = false

[dependencies]
bevy = { version = "=0.18.1", default-features = false, features = ["std", "bevy_asset", "bevy_ui_render"] }
