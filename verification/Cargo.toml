[package]
name = "reditor"
version = "0.1.0"
edition = "2021"
publish = false

[dependencies]
chardet = "=0.2.4"
egui = "=0.28.1"
egui_dock = "=0.13.0"
egui_extras = { version = "=0.28.1", features = ["image"] }
rfd = { version = "0.14", default-features = false, features = ["xdg-portal", "tokio"] }
