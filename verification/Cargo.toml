[package]
name = "md_viewer"
version = "0.1.0"
edition = "2021"
publish = false

[dependencies]
url = "=2.5.8"
eframe = { version = "=0.37.0", default-features = false, features = ["glow", "default_fonts", "x11"] }
egui_commonmark = "=0.26.0"
egui_extras = { version = "=0.37.0", default-features = false }
rfd = { version = "=0.17.2", default-features = false, features = ["xdg-portal"] }
