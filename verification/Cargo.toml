[package]
name = "rangegz"
version = "0.1.0"
edition = "2021"
publish = false

[dependencies]
flate2 = { version = "=1.1.10", features = ["zlib-rs"] }
anyhow = "=1.0.104"
reqwest = { version = "=0.13.5", default-features = false, features = ["blocking"] }
