[package]
name = "coolctl"
version = "0.1.0"
edition = "2021"
publish = false

[dependencies]
serde = { version = "1", features = ["derive"] }
toml = "0.8"
log = "0.4"
env_logger = "0.11"
nix = { version = "0.29", features = ["signal", "fs"] }
thiserror = "1"
