[package]
name = "git_user_switch"
version = "0.1.0"
edition = "2021"
publish = false

[dependencies]
clap = { version = "*", features = ["derive"] }
colored = "*"
dirs = "*"
inquire = "*"
serde = { version = "*", features = ["derive"] }
serde_json = "*"
thiserror = "*"
validator = "*"
