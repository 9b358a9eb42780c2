[package]
name = "gcode_link"
version = "0.1.0"
edition = "2021"
publish = false

[dependencies]
serialport = { version = "*", default-features = false }
chrono = "*"
