[package]
name = "utc2k"
version = "0.18.1"
edition = "2021"
publish = false

[dependencies]
tz-rs = "0.7.1"

[dev-dependencies]
chrono = "0.4"
