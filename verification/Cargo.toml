[package]
name = "gotify_core"
version = "0.1.0"
edition = "2021"
publish = false

[dependencies]
url = "=2.5.8"
chrono = "=0.4.45"
base64 = "=0.23.1"
serde = { version = "=1.0.229", features = ["derive"] }
serde_json = "=1.0.151"
tokio = { version = "=1.53.2", features = ["rt-multi-thread", "macros", "time", "sync"] }
reqwest = { version = "=0.13.5", default-features = false, features = ["json"] }
tokio-tungstenite = "=0.30.0"
futures-util = "=0.3.34"
