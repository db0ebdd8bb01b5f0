[package]
name = "bevy_easy_portals"
version = "0.1.0"
edition = "2021"
publish = false

[dependencies]
bevy = { version = "=0.18.1", default-features = false, features = ["std", "bevy_pbr", "bevy_picking", "bevy_gizmos", "bevy_log"] }
uuid = { version = "=1.29.0", features = ["v4"] }
