[package]
name = "raytracer"
version = "0.1.0"
edition = "2021"
publish = false

[dependencies]
anyhow = "*"
image = "*"
indicatif = "*"
log = "*"
serde = { version = "*", features = ["derive"] }
serde_json = "*"
threadpool = "*"
