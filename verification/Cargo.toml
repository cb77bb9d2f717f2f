[package]
name = "rinputer"
version = "0.1.0"
edition = "2021"
publish = false

[dependencies]
anyhow = "1"
clap = { version = "3.2", features = ["derive"] }
evdev = { version = "0.12", features = ["serde"] }
interprocess = "1"
ron = "0.8"
serde = { version = "1", features = ["derive"] }
