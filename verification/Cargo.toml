[package]
name = "screen_overlay"
version = "0.1.0"
edition = "2021"
publish = false

[dependencies]
image = { version = "=0.25.10", default-features = false, features = ["png"] }
eframe = { version = "=0.29.1", default-features = false, features = ["glow", "default_fonts"] }
# winit is named for its `x11` feature alone, which eframe needs to open a
# window: eframe's own `x11` feature would also draw its wgpu renderer into
# the lock file, and nothing here uses that renderer.
winit = { version = "=0.30.13", default-features = false, features = ["x11"] }
xcap = "=0.4.1"
chrono = "=0.4.45"
serde = { version = "=1.0.229", features = ["derive"] }
serde_json = "=1.0.154"
tracing = "=0.1.44"
tracing-subscriber = { version = "=0.3.23", features = ["env-filter"] }
