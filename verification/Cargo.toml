[package]
name = "rust_tools"
version = "0.1.0"
edition = "2021"
publish = false

[dependencies]
regex = "=1.13.1"
clap = { version = "=4.6.7", features = ["derive"] }
walkdir = "=2.5.0"
libc = "=0.2.191"
nom = "=3.2.1"
