[package]
name = "roman_time"
version = "0.1.0"
edition = "2021"
publish = false

[dependencies]
chrono = "0.4"
num-ordinal = "*"
sunrise = "1"

[dev-dependencies]
chrono-tz = "*"
