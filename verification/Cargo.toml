[package]
name = "lift_cabin"
version = "0.1.0"
edition = "2021"
publish = false

[dependencies]
bevy = { version = "=0.16.1", default-features = false, features = ["bevy_render", "bevy_pbr", "bevy_window", "bevy_log"] }
egui = { version = "0.31", default-features = false }
uuid = "=1.29.0"
