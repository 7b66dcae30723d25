[package]
name = "trough"
version = "0.1.0"
edition = "2021"
publish = false

[dependencies]
anyhow = "=1.0.104"
clap = { version = "4", features = ["derive"] }
crossterm = "=0.29.0"
dirs = "=7.0.0"
ratatui = "=0.30.2"
rusqlite = { version = "=0.41.1", features = ["bundled"] }
