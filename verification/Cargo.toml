[package]
name = "holo_core"
version = "0.1.0"
edition = "2021"
publish = false

[dependencies]
smithay = { version = "0.4", default-features = false, features = ["desktop", "wayland_frontend"] }
tracing = "*"
