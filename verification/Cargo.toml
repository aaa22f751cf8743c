[package]
name = "cargo-cite"
version = "0.1.0"
edition = "2021"
publish = false

[dependencies]
chrono = { version = "0.4", default-features = false, features = ["clock"] }
gumdrop = "0.8"
toml = "0.5"
