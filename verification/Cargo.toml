[package]
name = "aarty"
version = "0.7.0"
edition = "2021"
publish = false

[dependencies]
image = { version = "0.24", default-features = false, features = ["png", "jpeg"] }
clap = { version = "4", features = ["derive"] }
colored = "2"
log = "0.4"
pretty_env_logger = "0.5"
serde = { version = "1", features = ["derive"] }
