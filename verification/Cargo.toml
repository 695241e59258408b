[package]
name = "yts"
version = "0.1.0"
edition = "2021"
publish = false

[dependencies]
url = "2"
clap = "4"
chrono = "0.4"
reqwest = { version = "0.12", default-features = false, features = ["blocking", "rustls-tls"] }
