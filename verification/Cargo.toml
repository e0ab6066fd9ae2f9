[package]
name = "bevy_slang"
version = "0.1.0"
edition = "2021"
publish = false

[dependencies]
bevy = { version = "0.12", default-features = false, features = ["bevy_asset"] }
serde = { version = "1", features = ["derive"] }
