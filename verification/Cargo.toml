[package]
name = "tb_pacman"
version = "0.1.0"
edition = "2021"
publish = false

[dependencies]
rand = "0.7"
serde = { version = "1", features = ["derive"] }
serde_json = "1"
schemars = "0.8"
lazy_static = "1"
access-json = "0.1"
