[package]
name = "haut_network_guard"
version = "1.2.3"
edition = "2021"
publish = false

[dependencies]
urlencoding = "=2.1.3"
reqwest = { version = "=0.12.28", features = ["blocking", "json"] }
serde = { version = "=1.0.229", features = ["derive"] }
open = "=5.4.5"
eframe = { version = "0.30", default-features = false, features = ["default_fonts", "glow", "x11"] }
