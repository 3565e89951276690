[package]
name = "ide_discovery"
version = "0.1.0"
edition = "2021"
publish = false

[dependencies]
anyhow = "*"
clap = { version = "*", features = ["derive"] }
home = "*"
serde = { version = "*", features = ["derive"] }
serde_json = "*"
walkdir = "*"
