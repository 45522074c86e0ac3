[package]
name = "serverscope"
version = "0.1.0"
edition = "2021"
publish = false

[dependencies]
chrono = "0.4"
crossbeam-channel = "0.5"
dirs = "*"
eframe = { version = "0.37", default-features = false, features = ["default_fonts", "glow", "x11"] }
serde = { version = "1", features = ["derive"] }
serde_json = "1"
ssh2 = "0.9"
