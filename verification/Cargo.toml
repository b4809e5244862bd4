[package]
name = "rdp_spray"
version = "0.1.0"
edition = "2021"
publish = false

[dependencies]
clap = { version = "*", features = ["derive"] }
rdp-rs = "*"
socks = "*"
