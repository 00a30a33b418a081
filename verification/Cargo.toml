[package]
name = "puppetty"
version = "0.1.0"
edition = "2021"
publish = false

[dependencies]
bevy = { version = "*", default-features = false }
cpal = "*"
rfd = "*"
