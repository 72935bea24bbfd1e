[package]
name = "serial_tcp_bridge"
version = "0.1.0"
edition = "2021"
publish = false

[dependencies]
clap = { version = "*", features = ["derive"] }
env_logger = "*"
log = "*"
serialport = { version = "*", default-features = false }
