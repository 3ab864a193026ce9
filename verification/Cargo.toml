[package]
name = "heddle"
version = "0.1.0"
edition = "2021"
publish = false

[dependencies]
anyhow = "=1.0.104"
clap = { version = "=4.6.7", features = ["derive"] }
crossterm = { version = "=0.29.0", features = ["event-stream"] }
directories = "=6.0.0"
emojis = "=0.9.1"
futures-util = "=0.3.34"
ratatui = { version = "=0.30.2", features = ["unstable-rendered-line-info"] }
ratatui-hypertile = { version = "=0.4.2", features = ["serde"] }
serde = { version = "=1.0.229", features = ["derive"] }
serde_json = "=1.0.154"
thiserror = "=2.0.21"
tokio = { version = "=1.54.1", features = ["macros", "rt-multi-thread", "sync", "time"] }
toml = "=0.9.12"
tracing = "=0.1.44"
tracing-appender = "=0.2.5"
tracing-subscriber = { version = "=0.3.23", features = ["env-filter"] }
unicode-segmentation = "=1.13.3"
unicode-width = "=0.2.3"
