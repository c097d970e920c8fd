[package]
name = "file_explorer"
version = "0.1.0"
edition = "2021"
publish = false

[dependencies]
dirs = "*"
eframe = { version = "*", default-features = false, features = ["glow", "x11"] }
egui_extras = { version = "*", default-features = false }
time = { version = "*", features = ["formatting", "parsing"] }
