[package]
name = "qlipq"
version = "0.1.0"
edition = "2021"
publish = false

[dependencies]
chrono = "=0.4.45"
regex = "=1.13.1"
regex-syntax = { version = "=0.8.11", features = ["unicode-perl"] }
serde = { version = "=1.0.229", features = ["derive"] }
serde_json = "=1.0.154"
dirs = "=7.0.0"
notify = "=8.2.1"
open = "=5.4.5"
schemars = "=1.2.3"
image = { version = "=0.25.10", default-features = false, features = ["png"] }
