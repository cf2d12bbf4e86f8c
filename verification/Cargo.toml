[package]
name = "tidewm"
version = "0.1.0"
edition = "2021"
publish = false

[dependencies]
serde = { version = "=1.0.229", features = ["derive"] }
serde_json = "=1.0.154"
zbus = "=5.19.0"
fontdue = "=0.9.5"
blocking = "=1.7.0"
futures-util = "=0.3.34"
tracing = "=0.1.44"
tracing-subscriber = { version = "=0.3.23", features = ["env-filter"] }
smithay = { version = "=0.7.0", default-features = false, features = ["wayland_frontend", "desktop"] }
wayland-protocols-wlr = { version = "=0.3.12", features = ["server"] }
pipewire = "=0.9.2"
