[package]
name = "typist"
version = "0.1.0"
edition = "2021"
publish = false

[dependencies]
anyhow = "1"
clap = { version = "*", features = ["derive"] }
crossterm = "*"
encoding = "0.2"
ignore = "*"
rand = "*"
ratatui = "*"
