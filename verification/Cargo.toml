[package]
name = "aurorawm"
version = "0.1.0"
edition = "2021"
publish = false

[dependencies]
anyhow = "=1.0.104"
dirs = "=5.0.1"
image = { version = "=0.24.9", default-features = false, features = ["png", "jpeg"] }
serde = { version = "=1.0.229", features = ["derive"] }
toml = "=0.8.23"
tracing = "=0.1.44"
tracing-subscriber = { version = "=0.3.23", features = ["env-filter"] }
wayland-server = "=0.31.14"
smithay = { version = "=0.7.0", default-features = false, features = ["wayland_frontend", "desktop", "backend_winit", "renderer_gl", "backend_egl", "backend_drm", "backend_libinput"] }
