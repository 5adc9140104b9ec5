[package]
name = "werewolf"
version = "0.1.0"
edition = "2021"
publish = false

[dependencies]
chrono = { version = "=0.4.45", default-features = false, features = ["std", "clock"] }
uuid = { version = "=1.29.0", features = ["v4"] }
serde = { version = "=1.0.229", features = ["derive"] }
serde_json = "1"
toml = "=0.8.23"
directories = "=5.0.1"
thiserror = "=1.0.69"
clap = { version = "4", features = ["derive"] }
