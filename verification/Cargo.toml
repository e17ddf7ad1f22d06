[package]
name = "rusty_music"
version = "0.1.0"
edition = "2021"
publish = false

[dependencies]
ratatui = "*"
crossterm = "*"
sqlite = "*"
confy = "*"
serde = { version = "*", features = ["derive"] }
serde_derive = "*"
rodio = "*"
anyhow = "*"
