[package]
name = "manga_tui"
version = "0.1.0"
edition = "2021"
publish = false

[dependencies]
image = "0.25"
crossterm = { version = "0.28", features = ["event-stream"] }
dirs = "6"
env_logger = "0.11"
futures = "0.3"
log = "0.4"
ratatui = "0.29"
ratatui-image = "4"
reqwest = { version = "0.12", default-features = false, features = ["json", "rustls-tls"] }
serde = { version = "1", features = ["derive"] }
serde_json = "1"
tokio = { version = "1", features = ["macros", "rt-multi-thread", "sync", "time"] }
webbrowser = "1"
