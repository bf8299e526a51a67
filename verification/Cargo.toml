[package]
name = "felx"
version = "0.1.0"
edition = "2021"
publish = false

[dependencies]
eframe = { version = "0.32", default-features = false, features = ["default_fonts", "wgpu", "x11"] }
egui = { version = "0.32", default-features = false }
ffmpeg-next = { version = "7", default-features = false, features = ["codec", "format", "software-scaling"] }
image = { version = "0.25", default-features = false }
notify = { version = "8", default-features = false }
rfd = { version = "0.15", default-features = false, features = ["xdg-portal", "tokio"] }
ron = "0.10"
serde = { version = "1", features = ["derive"] }
tracing = { version = "0.1", default-features = false, features = ["std"] }
tracing-subscriber = { version = "0.3", default-features = false, features = ["env-filter", "fmt", "std"] }
wgpu = { version = "25", default-features = false, features = ["wgsl"] }
