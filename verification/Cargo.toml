[package]
name = "adb_manager"
version = "0.1.0"
edition = "2021"
publish = false

[dependencies]
eframe = { version = "=0.23.0", default-features = false, features = ["default_fonts", "glow"] }
rfd = { version = "=0.12.1", default-features = false, features = ["xdg-portal"] }
