[package]
name = "lazysysd"
version = "0.1.0"
edition = "2021"
publish = false

[dependencies]
ansi-to-tui = "7"
crossterm = { version = "0.28", features = ["event-stream"] }
futures = "0.3"
fuzzy-matcher = "0.3"
portable-pty = "0.8"
ratatui = "0.29"
serde = { version = "1", features = ["derive"] }
tailspin = "*"
tokio = { version = "1", features = ["full"] }
which = "7"
zbus = { version = "5", default-features = false, features = ["tokio"] }
