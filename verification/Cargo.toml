[package]
name = "vibe"
version = "0.1.0"
edition = "2021"
publish = false

[dependencies]
serde = { version = "*", features = ["derive"] }
serde_json = "*"
toml = "*"
uuid = { version = "*", features = ["v4"] }
chrono = "*"
clap = { version = "*", features = ["derive"] }
which = "*"
libc = "*"
dirs = "*"
notify = "*"
