[package]
name = "cargo_cache"
version = "0.1.0"
edition = "2021"
publish = false

[dependencies]
clap = "=4.6.7"
humansize = "=2.1.3"
walkdir = "=2.5.0"
