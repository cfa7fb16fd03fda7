[package]
name = "botox"
version = "0.1.0"
edition = "2021"
publish = false

[dependencies]
anyhow = "1"
colored = "*"
curl = "0.4"
eyre = "*"
futures = "0.3"
kira = "*"
libpulse-binding = "*"
libpulse-simple-binding = "*"
msedge-tts = "*"
rand = "*"
regex = "1"
rodio = "*"
serde = { version = "1", features = ["derive"] }
tokio = { version = "1", features = ["fs", "macros", "rt-multi-thread", "sync", "time"] }
tokio-tungstenite = "*"
toml = "*"
