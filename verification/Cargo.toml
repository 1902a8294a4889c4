[package]
name = "rytm-rs"
version = "0.1.0"
edition = "2021"
publish = false

[dependencies]
rytm-sys = "*"
serde = { version = "1", features = ["derive"] }
serde-big-array = "*"
