[package]
name = "macos_scan"
version = "0.1.0"
edition = "2021"
publish = false

[dependencies]
anyhow = "1"
chrono = "0.4"
dirs = "5"
tokio = { version = "1", features = ["rt"] }
walkdir = "2"
