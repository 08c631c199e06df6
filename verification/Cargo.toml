[package]
name = "dictator"
version = "0.3.0"
edition = "2021"
publish = false

[dependencies]
chrono = "0.4"
dirs = "5"
sysinfo = "0.30"
serde = { version = "1", features = ["derive"] }
serde_json = "1"
toml = "0.8"
anyhow = "1"
hound = "3"
