[package]
name = "driftwm"
version = "0.1.0"
edition = "2021"
publish = false

[dependencies]
regex = "=1.13.1"
smithay = { version = "=0.7.0", default-features = false, features = ["wayland_frontend", "desktop"] }
toml = "=1.1.8"
serde = { version = "=1.0.229", features = ["derive"] }
freedesktop-desktop-entry = { version = "=0.8.4", default-features = false }
libdisplay-info = "=0.3.0"
drm-ffi = "=0.9.1"
tracing = "=0.1.44"
