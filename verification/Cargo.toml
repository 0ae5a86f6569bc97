[package]
name = "dev_browser"
version = "0.2.8"
edition = "2021"
publish = false

[dependencies]
clap = { version = "4", features = ["derive"] }
dirs = "6"
interprocess = "2"
libc = "0.2"
serde = { version = "1", features = ["derive"] }
serde_json = "1"
