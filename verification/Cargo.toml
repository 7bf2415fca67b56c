[package]
name = "harvardciter2"
version = "0.1.0"
edition = "2021"
publish = false

[dependencies]
chrono = "=0.4.45"
html_parser = "=0.6.3"
reqwest = { version = "=0.13.5", default-features = false, features = ["blocking"] }
roxmltree = "=0.21.1"
url = "=2.5.8"
