[package]
name = "minesweeper"
version = "0.1.0"
edition = "2021"

[dependencies]
rand = "0.8"
ggez = { version = "0.9", default-features = false }
