[package]
name = "sysview"
version = "0.1.0"
edition = "2021"
publish = false

[dependencies]
unicode-width = "*"
ratatui = "*"
serde = { version = "*", features = ["derive"] }
serde_json = "*"
libc = "*"
