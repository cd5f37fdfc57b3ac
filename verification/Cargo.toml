[package]
name = "mihoro"
version = "0.1.0"
edition = "2021"
publish = false

[dependencies]
anyhow = "*"
colored = "*"
flate2 = "*"
reqwest = { version = "*", default-features = false, features = ["blocking"] }
sudo = "*"
