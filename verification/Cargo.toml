[package]
name = "hypertask"
version = "0.1.0"
edition = "2021"
publish = false

[dependencies]
chrono = "0.4"
rand = "0.7"
regex = "1"
blake2 = "0.8"
serde = { version = "1", features = ["derive"] }
serde_json = "1"
toml = "0.5"
platform-dirs = "0.2"
shellexpand = "2"
ansi_term = "0.12"
