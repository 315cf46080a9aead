[package]
name = "wprs"
version = "0.1.0"
edition = "2021"
publish = false

[dependencies]
png = "=0.18.1"
jpeg-encoder = "=0.6.1"
jpeg-decoder = { version = "=0.3.2", default-features = false, features = ["platform_independent"] }
serde_json = "=1.0.154"
serde = { version = "=1.0.229", features = ["derive"] }
clap = { version = "=4.6.7", features = ["derive"] }
tokio = { version = "=1.54.1", features = ["rt-multi-thread", "net", "sync", "macros"] }
axum = { version = "=0.8.9", default-features = false, features = ["ws", "http1", "tokio"] }
futures-util = { version = "=0.3.34", default-features = false, features = ["sink", "std"] }
calloop = "=0.14.5"
crossbeam-channel = "=0.5.17"
rkyv = "=0.8.18"
tracing = "=0.1.44"
nix = { version = "=0.31.3", features = ["socket"] }
sysctl = "=0.7.1"
bytemuck = "=1.25.2"
pollster = "=1.0.1"
termwiz = { version = "=0.23.3", default-features = false }
winit = { version = "=0.30.13", default-features = false, features = ["rwh_06", "x11"] }
wgpu = { version = "=25.0.2", default-features = false, features = ["wgsl"] }
anyhow = "=1.0.104"
smithay = { version = "=0.7.0", default-features = false, features = ["backend_winit", "renderer_gl", "renderer_glow"] }
