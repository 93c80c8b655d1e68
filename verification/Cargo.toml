[package]
name = "provision"
version = "0.1.0"
edition = "2021"
publish = false

[dependencies]
clap = { version = "4", features = ["derive"] }
clap_complete = "4"
fs_extra = "1"
serde = { version = "1", features = ["derive"] }
serde_yaml = "0.9"
snafu = "0.8"
