[package]
name = "icy_term"
version = "0.1.0"
edition = "2021"
publish = false

[dependencies]
tokio = { version = "=1.54.1", features = ["net", "time", "rt", "io-util"] }
chrono = { version = "=0.4.45", default-features = false, features = ["clock"] }
log = "=0.4.34"
eframe = { version = "0.36", default-features = false, features = ["glow", "default_fonts", "x11"] }
egui-bind = "=0.18.0"
