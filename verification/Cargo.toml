[package]
name = "zeroclaw_fleet"
version = "0.1.0"
edition = "2021"
publish = false

[dependencies]
anyhow = "1"
axum = { version = "0.8", features = ["json"] }
base64 = "0.22"
bollard = "0.18"
clap = { version = "4", features = ["derive", "env"] }
futures-util = "0.3"
hex = "0.4"
mime_guess = "2"
reqwest = { version = "0.12", default-features = false, features = ["json"] }
rust-embed = "8"
serde = { version = "1", features = ["derive"] }
serde_json = "1"
serde_yaml = "0.9"
sha2 = "0.10"
tokio = { version = "1", features = ["macros", "net", "rt-multi-thread", "signal", "sync", "time"] }
toml = "0.8"
tower = "0.5"
tracing = "0.1"
tracing-subscriber = { version = "0.3", features = ["env-filter"] }
uuid = { version = "1", features = ["v4"] }
