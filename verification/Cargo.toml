[package]
name = "lucky"
version = "0.1.0"
edition = "2021"
publish = false

[dependencies]
ink = { version = "=5.0.0" }
parity-scale-codec = { version = "3", features = ["derive"] }
scale-info = { version = "2", features = ["derive"] }
pink-extension = "0.5"
pink-subrpc = "0.8"
