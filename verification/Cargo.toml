[package]
name = "sniprrr"
version = "0.1.0"
edition = "2021"
publish = false

[dependencies]
arboard = "3"
crossterm = "0.28"
dirs = "5"
ratatui = "0.29"
unicode-width = "0.2"

[dev-dependencies]
serde_json = "1"
