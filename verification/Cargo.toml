[package]
name = "inventory_manager"
version = "0.1.0"
edition = "2021"
publish = false

[dependencies]
eframe = { version = "=0.22.0", default-features = false, features = ["glow"] }
env_logger = "=0.11.11"
