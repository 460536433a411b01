[package]
name = "goto"
version = "0.1.0"
edition = "2021"
publish = false

[dependencies]
anyhow = "1"
dirs = "*"
serde = { version = "1", features = ["derive"] }
serde_yaml = "0.9"
skim = "0.10"
