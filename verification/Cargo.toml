[package]
name = "theta_lang"
version = "0.1.0"
edition = "2021"
publish = false

[dependencies]
clap = { version = "3", features = ["derive"] }
env_logger = "*"
log = "0.4"
utf8-chars = "*"
