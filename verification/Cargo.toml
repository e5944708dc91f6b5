[package]
name = "osc"
version = "0.1.0"
edition = "2021"
publish = false

[dependencies]
atomic_float = "*"
chrono = { version = "*", features = ["serde"] }
cpal = "*"
crossterm = "*"
dirs = "*"
hound = "*"
musicxml = "*"
parking_lot = "*"
ratatui = "*"
serde = { version = "*", features = ["derive"] }
serde_json = "*"
tokio = { version = "*", features = ["macros", "rt-multi-thread", "sync", "time"] }
toml = "*"
