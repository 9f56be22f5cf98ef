[package]
name = "rip"
version = "0.1.0"
edition = "2021"
publish = false

[dependencies]
zip = { version = "*", default-features = false, features = ["deflate"] }
walkdir = "*"
clap = { version = "*", features = ["derive"] }
atty = "*"
