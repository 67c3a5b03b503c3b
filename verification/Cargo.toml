[package]
name = "fanboy"
version = "0.1.0"
edition = "2021"
publish = false

[dependencies]
byteorder = "1"
clap = "2"
env_logger = "0.9"
git-version = "0.3"
log = "0.4"
prometheus = { version = "0.13", default-features = false }
prometheus_exporter = "0.8"
serialport = { version = "4", default-features = false }
