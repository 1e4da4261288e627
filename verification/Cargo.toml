[package]
name = "tuxctl"
version = "0.1.0"
edition = "2021"
publish = false

[dependencies]
crossterm = "0.28"
libc = "0.2"
ratatui = "0.29"
serde_json = "1"
signal-hook = "0.3"
