[package]
name = "dms_fetch"
version = "0.1.0"
edition = "2021"
publish = false

[dependencies]
anyhow = "*"
clap = { version = "*", features = ["derive"] }
env_logger = "*"
log = "*"
rpassword = "*"
tokio = { version = "*", features = ["io-util", "macros", "process", "rt-multi-thread", "signal", "time"] }
