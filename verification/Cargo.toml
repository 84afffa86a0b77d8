[package]
name = "screen_toggle"
version = "0.1.0"
edition = "2021"
publish = false

[dependencies]
futures = "0.3"
futures-signals = "0.3"
rdev = "0.5"
