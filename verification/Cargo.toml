[package]
name = "price_sessions"
version = "0.1.0"
edition = "2021"
publish = false

[dependencies]
tokio = { version = "=1.54.1", features = ["sync", "rt", "rt-multi-thread"] }
futures-util = { version = "=0.3.34", default-features = false, features = ["alloc"] }
bevy = { version = "0.15", default-features = false, features = ["bevy_winit", "bevy_window", "bevy_render", "bevy_core_pipeline", "x11"] }
bevy_egui = { version = "0.31", default-features = false, features = ["render"] }
