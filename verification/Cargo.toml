[package]
name = "rosenpass_core"
version = "0.1.0"
edition = "2021"
publish = false

[dependencies]
allocator-api2 = "*"
libc = "*"
log = "*"
env_logger = "*"
clap = { version = "*", features = ["derive"] }
