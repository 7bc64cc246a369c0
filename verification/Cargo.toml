[package]
name = "akrs"
version = "0.1.0"
edition = "2021"
publish = false

[dependencies]
codespan-reporting = "0.11"
dirs = "5"
eframe = { version = "0.23", default-features = false, features = ["default_fonts", "glow"] }
egui = "0.23"
env_logger = "0.11"
image = { version = "0.24", default-features = false, features = ["png", "jpeg"] }
serde = { version = "1", features = ["derive"] }
serde_json = "1"
thiserror = "1"
