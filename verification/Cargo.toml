[package]
name = "cargo_pgo"
version = "0.1.0"
edition = "2021"
publish = false

[dependencies]
cargo_metadata = "0.15"
anyhow = "*"
which = "*"
clap = { version = "4", features = ["derive"] }
colored = "*"
log = "*"
env_logger = "*"
