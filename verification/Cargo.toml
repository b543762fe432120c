[package]
name = "qq_cli"
version = "0.5.0"
edition = "2021"
publish = false

[dependencies]
clap = "3"
inquire = "0.7"
serde = { version = "1", features = ["derive"] }
toml = "0.8"
