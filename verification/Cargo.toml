[package]
name = "chat_relay"
version = "0.1.0"
edition = "2021"
publish = false

[dependencies]
serde = { version = "*", features = ["derive"] }
serde_json = "*"
anyhow = "*"
tokio = { version = "*", features = ["full"] }
axum = { version = "*", features = ["ws"] }
futures = "*"
reqwest = { version = "*", default-features = false, features = ["json", "stream"] }
tracing = "*"
tracing-subscriber = { version = "*", features = ["env-filter"] }
ratatui = "*"
tokio-tungstenite = "*"
