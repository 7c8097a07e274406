[package]
name = "cia402_node"
version = "0.1.0"
edition = "2021"
publish = false

[dependencies]
can-socket = { version = "0.1", features = ["tokio"] }
canopen-tokio = "0.0.1-alpha2"
clap = { version = "4", features = ["derive"] }
env_logger = "0.11"
futures = "0.3"
log = "0.4"
tokio = { version = "1", features = ["rt-multi-thread", "macros", "sync", "time"] }
toml = "0.8"
