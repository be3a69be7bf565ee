[package]
name = "astralis"
version = "0.1.0"
edition = "2021"
publish = false

[dependencies]
chrono = "0.4"
serialport = { version = "4", default-features = false }
spa = "*"
