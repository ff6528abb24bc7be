[package]
name = "wallrnd"
version = "0.1.0"
edition = "2021"
publish = false

[dependencies]
chrono = "0.4"
delaunator = "0.2"
rand = "0.7"
serde = { version = "1", features = ["derive"] }
toml = "0.5"
wallpaper = "3"
