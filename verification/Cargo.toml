[package]
name = "typing_trainer"
version = "0.1.0"
edition = "2021"
publish = false

[dependencies]
chrono = "0.4"
color-eyre = "0.6"
crossterm = "*"
ratatui = "*"
rodio = "*"
serde = { version = "1", features = ["derive"] }
serde_json = "1"
