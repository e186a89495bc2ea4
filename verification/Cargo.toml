[package]
name = "braid_process_video"
version = "0.1.0"
edition = "2021"
publish = false

[dependencies]
chrono = "*"
serde = { version = "*", features = ["derive"] }
serde_json = "*"
h264-reader = "*"
image = { version = "*", default-features = false, features = ["png"] }
