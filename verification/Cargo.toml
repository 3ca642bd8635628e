[package]
name = "rustii"
version = "0.1.0"
edition = "2021"
publish = false

[dependencies]
image = { version = "*", default-features = false, features = ["png", "jpeg"] }
miniz_oxide = "*"
clap = { version = "4", features = ["derive"] }
indicatif = "*"
