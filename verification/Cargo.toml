[package]
name = "esbat"
version = "0.1.0"
edition = "2021"
publish = false

[dependencies]
chrono = { version = "=0.4.19", default-features = false, features = ["std"] }
