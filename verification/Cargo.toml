[package]
name = "gnil_app"
version = "0.1.0"
edition = "2021"
publish = false

[dependencies]
chrono = "0.4"
regex = "1"
dirs = "6"
url = "2"
