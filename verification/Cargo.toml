[package]
name = "tarry"
version = "0.1.3"
edition = "2021"
publish = false

[dependencies]
clap = { version = "4", features = ["derive"] }
humantime = "2"
regex = "1"
serde_json = { version = "1", features = ["preserve_order"] }
ureq = "2"
