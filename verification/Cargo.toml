[package]
name = "tarpit"
version = "0.1.0"
edition = "2021"
publish = false

[dependencies]
fuser = "*"
libc = "*"
log = "*"
env_logger = "*"
clap = { version = "*", features = ["derive"] }
