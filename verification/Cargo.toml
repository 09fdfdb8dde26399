[package]
name = "se_button"
version = "0.1.0"
edition = "2021"
publish = false

[dependencies]
csv = "=1.1.6"
device_query = "=0.2.8"
midir = "=0.7.0"
rodio = { version = "=0.13.1", default-features = false }
