[package]
name = "basic_auth"
version = "0.1.0"
edition = "2021"
publish = false

[dependencies]
base64 = "0.13"
rocket = { version = "=0.5.0-rc.3", features = ["json"] }
