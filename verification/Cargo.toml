[package]
name = "cube_autotune"
version = "0.1.0"
edition = "2021"
publish = false

[dependencies]
cubecl = { version = "=0.5.0", features = ["reduce"] }
burn-tensor = "=0.17.1"
serde = { version = "=1.0.229", features = ["derive"] }
