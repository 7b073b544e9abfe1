[package]
name = "anima"
version = "0.1.0"
edition = "2021"
publish = false

[dependencies]
crossterm = "*"
colored_truecolor = "*"
uuid = { version = "*", features = ["v4"] }
chrono = "*"
