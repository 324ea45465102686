[package]
name = "outfit_picker"
version = "0.1.0"
edition = "2021"
publish = false

[dependencies]
chrono = "0.4"
rand = "0.8"
serde = { version = "1", features = ["derive"] }
serde_json = "1"
tokio = { version = "1", features = ["fs", "rt-multi-thread", "macros"] }
futures = "0.3"
clap = { version = "4", features = ["derive"] }
dirs = "5"
