[package]
name = "agentusage"
version = "0.1.0"
edition = "2021"
publish = false

[dependencies]
anyhow = "1"
base64 = "0.22"
chrono = "0.4"
clap = { version = "4", features = ["derive"] }
dialoguer = "0.11"
dirs = "5"
keyring = { version = "3", features = ["apple-native", "windows-native", "linux-native"] }
owo-colors = "4"
reqwest = { version = "0.12", default-features = false, features = ["blocking", "rustls-tls"] }
rquickjs = "0.9"
rusqlite = { version = "0.32", features = ["bundled"] }
serde = { version = "1", features = ["derive"] }
serde_json = "1"
tracing = "0.1"
tracing-subscriber = { version = "0.3", features = ["env-filter"] }
uuid = { version = "1", features = ["v4"] }
