[package]
name = "jean"
version = "0.1.0"
edition = "2021"
publish = false

[dependencies]
regex = "=1.13.1"
glob = "=0.3.4"
serde = { version = "=1.0.229", features = ["derive"] }
serde_json = "=1.0.151"
tokio = { version = "=1.53.2", features = ["full"] }
tokio-tungstenite = "=0.29.0"
futures-util = "=0.3.34"
axum = { version = "=0.8.9", features = ["ws"] }
tower-http = { version = "=0.6.11", features = ["cors"] }
anyhow = "=1.0.104"
chrono = "=0.4.45"
crossterm = "=0.29.0"
ratatui = "=0.30.2"
async-openai = { version = "=0.42.1", features = ["chat-completion"] }
ignore = "=0.4.33"
