[package]
name = "chainvasion"
version = "0.1.0"
edition = "2021"
publish = false

[dependencies]
rand = "0.8"
bevy = { version = "0.16", default-features = false, features = ["std", "bevy_state"] }
