[package]
name = "gif_engine"
version = "0.1.0"
edition = "2021"
publish = false

[dependencies]
png = "*"
image = { version = "*", default-features = false, features = ["gif"] }
