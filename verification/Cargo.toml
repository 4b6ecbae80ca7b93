[package]
name = "otto_tui"
version = "0.1.0"
edition = "2021"
publish = false

[dependencies]
anyhow = "=1.0.104"
base64 = "=0.22.1"
crossterm = { version = "=0.28.1", features = ["event-stream"] }
futures = "=0.3.34"
libc = "=0.2.191"
pulldown-cmark = { version = "=0.13.6", default-features = false }
ratatui = { version = "=0.29.0", features = ["unstable-rendered-line-info"] }
reqwest = { version = "=0.12.28", default-features = false, features = ["json", "stream"] }
serde = { version = "=1.0.229", features = ["derive"] }
serde_json = "=1.0.154"
similar = "=2.7.0"
syntect = { version = "=5.3.0", default-features = false, features = ["default-fancy"] }
tokio = { version = "=1.54.1", features = ["macros", "rt-multi-thread", "sync", "time", "process", "io-std", "io-util"] }
unicode-segmentation = "=1.13.3"
unicode-width = "=0.2.0"
