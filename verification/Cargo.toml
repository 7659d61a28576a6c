[package]
name = "chessy"
version = "0.1.0"
edition = "2021"
publish = false

[dependencies]
shakmaty = "=0.29.4"
pgn-reader = "=0.28.0"
serde = { version = "=1.0.229", features = ["derive"] }
serde_json = "=1.0.154"
dirs-next = "=2.0.0"
anyhow = "=1.0.104"
eframe = { version = "0.37", default-features = false, features = ["default_fonts", "glow", "x11"] }
egui = "0.37"
arboard = { version = "3", default-features = false }
resvg = { version = "0.49", default-features = false }
