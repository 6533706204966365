[package]
name = "termcraft"
version = "0.1.0"
edition = "2021"
publish = false

[dependencies]
bincode = "1"
flate2 = "1"
noise = "0.9"
rand = "0.8"
serde = { version = "1", features = ["derive"] }
