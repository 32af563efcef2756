[package]
name = "doom_fire"
version = "0.1.0"
edition = "2021"
publish = false

[dependencies]
anyhow = "1"
dirs = "*"
gtk4 = "*"
image = { version = "0.25", default-features = false, features = ["bmp", "png"] }
rand = "0.9"
rayon = "1"
serde = { version = "1", features = ["derive"] }
serde_json = "1"
toml = "0.8"
