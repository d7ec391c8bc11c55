[package]
name = "secm"
version = "0.1.0"
edition = "2021"
publish = false

[dependencies]
rust-crypto = "0.2"
rand = "0.8"
rusqlite = "*"
dirs = "5"
clipboard = "0.5"
ratatui = "0.27"
crossterm = "0.27"
security-framework = "2"
serde = { version = "1", features = ["derive"] }
serde_json = "1"
unicode-width = "0.1"
