[package]
name = "wayland-overlay"
version = "0.1.0"
edition = "2021"
publish = false

[dependencies]
anyhow = "=1.0.104"
calloop = "=0.13.0"
calloop-wayland-source = "=0.3.0"
chrono = "=0.4.45"
clap = { version = "=4.6.7", features = ["derive"] }
colored = "=3.1.1"
content_inspector = "=0.2.4"
crossbeam = "=0.8.5"
env_logger = "=0.11.11"
hyprland = "=0.3.13"
ignore = "=0.4.33"
log = "=0.4.34"
regex = "=1.13.1"
serde = { version = "=1.0.229", features = ["derive"] }
serde_json = "=1.0.154"
smithay-client-toolkit = { version = "=0.19.2", default-features = false, features = ["calloop"] }
softbuffer = "=0.4.8"
tiny-skia = "=0.12.0"
tokio = { version = "=1.54.1", features = ["rt-multi-thread", "net", "io-util"] }
wayland-client = "=0.31.15"
winit = "=0.30.13"
