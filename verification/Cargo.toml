[package]
name = "odjk-sv"
version = "0.1.0"
edition = "2021"
publish = false

[dependencies]
eframe = { version = "0.34", default-features = false, features = ["default_fonts", "glow", "x11"] }
mimalloc = "0.1"
