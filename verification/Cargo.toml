[package]
name = "phantomtrace"
version = "0.1.0"
edition = "2021"
publish = false

[dependencies]
regex = "*"
serde = { version = "*", features = ["derive"] }
serde_json = "*"
clap = "*"
ctrlc = "*"
