[package]
name = "udisk_tester"
version = "0.1.0"
edition = "2021"
publish = false

[dependencies]
chrono = { version = "0.4", default-features = false, features = ["clock"] }
eframe = { version = "0.22", default-features = false, features = ["default_fonts", "glow", "wayland"] }
rand = "0.8"
