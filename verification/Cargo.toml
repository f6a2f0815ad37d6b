[package]
name = "pageturtle"
version = "0.1.0"
edition = "2021"
publish = false

[dependencies]
comrak = "*"
serde_yaml = "*"
toml = "*"
slug = "*"
chrono = "*"
clap = { version = "*", features = ["derive"] }
crossbeam-channel = "*"
notify = "*"
rouille = "*"
walkdir = "*"
