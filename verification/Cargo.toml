[package]
name = "aspect45"
version = "0.1.0"
edition = "2021"
publish = false

[dependencies]
anyhow = "1"
clap = { version = "4", features = ["derive"] }
image = { version = "0.24", default-features = false, features = ["jpeg", "png", "webp"] }
rayon = "1"
walkdir = "2"
