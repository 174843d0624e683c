[package]
name = "hexview"
version = "0.1.0"
edition = "2021"
publish = false

[dependencies]
anyhow = "=1.0.104"
clap = { version = "=4.6.7", features = ["derive"] }
crossterm = "=0.28.1"
eframe = { version = "0.24", default-features = false, features = ["glow", "x11"] }
ratatui = "=0.29.0"
