[package]
name = "c14"
version = "0.1.0"
edition = "2021"
publish = false

[dependencies]
regex = "1"
conventional = "0.5"
git2 = "*"
clap = { version = "4", features = ["derive"] }
serde = { version = "1", features = ["derive"] }
serde_yaml = "0.9"
