[package]
name = "ws_nav"
version = "0.1.0"
edition = "2021"
publish = false

[dependencies]
clap = { version = "*", features = ["derive"] }
ksway = "*"
serde_json = "*"
