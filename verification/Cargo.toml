[package]
name = "git_log_formatter"
version = "0.1.0"
edition = "2021"
publish = false

[dependencies]
clap = { version = "4", features = ["derive"] }
log = "0.4"
regex = "1"
simple_logger = "*"
