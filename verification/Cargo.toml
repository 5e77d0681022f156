[package]
name = "rsless"
version = "0.1.0"
edition = "2021"
publish = false

[dependencies]
serde_json = "1"
uuid = { version = "1", features = ["v4"] }
serde = { version = "1", features = ["derive"] }
redis = "0.25"
clap = "2"
walkdir = "2"
