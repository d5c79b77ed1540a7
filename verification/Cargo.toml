[package]
name = "ttrys"
version = "0.1.0"
edition = "2021"
publish = false

[dependencies]
rand = "0.8"
ratatui = { version = "0.23", default-features = false, features = ["termion"] }
termion = "2"
