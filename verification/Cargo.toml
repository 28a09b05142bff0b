[package]
name = "screen_share"
version = "0.1.0"
edition = "2021"
publish = false

[dependencies]
byteorder = "=1.5.0"
reed-solomon-erasure = "=6.0.0"
evdev = "=0.12.2"
anyhow = "=1.0.104"
serde = { version = "=1.0.229", features = ["derive"] }
serde_json = "=1.0.154"
tokio = { version = "=1.54.1", features = ["full"] }
tracing = "=0.1.44"
tracing-subscriber = { version = "=0.3.23", features = ["env-filter"] }
socket2 = { version = "=0.5.10", features = ["all"] }
bytes = "1"
futures-util = "0.3"
axum = { version = "0.7", default-features = false, features = ["ws", "http1", "tokio"] }
webrtc = "0.11"
winit = { version = "0.30", default-features = false, features = ["x11", "rwh_06"] }
softbuffer = { version = "0.4", default-features = false, features = ["x11"] }
tiny-skia = { version = "0.11", default-features = false, features = ["std", "simd"] }
ab_glyph = "0.2"
sdl2 = "*"
