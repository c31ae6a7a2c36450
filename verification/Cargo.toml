[package]
name = "node_graph"
version = "0.1.0"
edition = "2021"
publish = false

[dependencies]
eframe = { version = "*", default-features = false, features = ["glow", "x11"] }
egui = { version = "*", default-features = false }
env_logger = { version = "*", default-features = false }
