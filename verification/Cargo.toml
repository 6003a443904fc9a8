[package]
name = "streak_game"
version = "0.1.0"
edition = "2021"
publish = false

[dependencies]
fastrand = "*"
chrono = "*"
csv = "*"
serde = { version = "*", features = ["derive"] }
