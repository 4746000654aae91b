[package]
name = "seme"
version = "0.1.0"
edition = "2021"
publish = false

[dependencies]
serde_json = "1"
serde = { version = "1", features = ["derive"] }
clap = { version = "4", features = ["derive"] }
colored = "*"
dirs = "*"
isahc = "1"
linku-sona = "*"
color-eyre = "*"
