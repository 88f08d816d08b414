[package]
name = "satellite_viewer"
version = "0.1.0"
edition = "2021"
publish = false

[dependencies]
anyhow = "1"
bytemuck = { version = "1", features = ["derive"] }
chrono = { version = "0.4", default-features = false, features = ["now", "std"] }
eframe = { version = "0.33", default-features = false, features = ["default_fonts", "wgpu", "x11"] }
egui = { version = "0.33", default-features = false }
egui_extras = { version = "0.33", default-features = false, features = ["image"] }
egui-wgpu = { version = "0.33", default-features = false }
egui-winit = { version = "0.33", default-features = false, features = ["x11"] }
env_logger = { version = "0.11", default-features = false }
image = { version = "0.25", default-features = false, features = ["png"] }
log = "0.4"
reqwest = { version = "0.12", default-features = false, features = ["rustls-tls"] }
serde = { version = "1", features = ["derive"] }
serde_json = "1"
tokio = { version = "1", features = ["rt-multi-thread", "time"] }
ureq = { version = "2", features = ["json"] }
wgpu = { version = "27", default-features = false, features = ["wgsl"] }
winit = { version = "0.30", default-features = false, features = ["x11", "rwh_06"] }
