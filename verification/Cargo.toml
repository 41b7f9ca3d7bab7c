[package]
name = "nosignal"
version = "0.1.0"
edition = "2021"
publish = false

[dependencies]
argon2 = "=0.5.3"
chrono = "=0.4.45"
clap = "=4.6.7"
crossterm = "=0.28.1"
dirs = "=7.0.0"
fern = "=0.7.1"
futures-channel = "=0.3.34"
futures-util = "=0.3.34"
humantime = "=2.4.0"
log = "=0.4.34"
polodb_core = "=4.4.2"
ratatui = "=0.29.0"
regex = "=1.13.1"
rpassword = "=7.5.4"
serde = { version = "=1.0.229", features = ["derive"] }
serde_json = "=1.0.154"
thiserror = "=2.0.21"
tokio = { version = "=1.54.1", features = ["full"] }
tokio-tungstenite = "=0.30.0"
tokio-util = "=0.7.20"
tui-pattern-highlighter = "=0.3.3"
tui-popup = "=0.6.0"
tui-textarea = { version = "=0.7.0", features = ["search"] }
uuid = { version = "=1.29.0", features = ["v4"] }
