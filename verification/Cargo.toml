[package]
name = "solitaire"
version = "0.1.0"
edition = "2021"
publish = false

[dependencies]
rand = "0.9"
serde = { version = "1", features = ["derive"] }
egui = "0.32"
eframe = { version = "0.32", default-features = false, features = ["glow", "persistence", "x11", "default_fonts"] }
image = { version = "0.25", default-features = false, features = ["png"] }
web-time = "1"
