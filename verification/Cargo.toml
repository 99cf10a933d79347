[package]
name = "glide_core"
version = "0.1.0"
edition = "2021"
publish = false

[dependencies]
tokio = { version = "1", features = ["macros", "rt-multi-thread", "net", "io-util", "sync", "time"] }
crossterm = "*"
get_if_addrs = "*"
log = "*"
env_logger = "*"
