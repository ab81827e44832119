[package]
name = "hbm"
version = "0.1.0"
edition = "2021"
publish = false

[dependencies]
nix = { version = "0.29", features = ["fs", "ioctl", "mman", "poll"] }
