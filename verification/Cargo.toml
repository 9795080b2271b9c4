[package]
name = "blackd_client"
version = "0.1.0"
edition = "2021"
publish = false

[dependencies]
argh = "=0.1.19"
reqwest = { version = "=0.13.5", default-features = false, features = ["blocking"] }
tempfile = "=3.27.0"

[dev-dependencies]
fs-err = "*"
