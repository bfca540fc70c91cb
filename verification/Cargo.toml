[package]
name = "ttparser"
version = "0.1.0"
edition = "2021"
publish = false

[dependencies]
regex = "1"
toml = "0.8"
clap = { version = "4", features = ["cargo"] }
