[package]
name = "tin_drivers_midi"
version = "0.1.0"
edition = "2021"
publish = false

[dependencies]
anyhow = "*"
argparse = "*"
ctrlc = "*"
log = "*"
midir = "*"
pretty_env_logger = "*"
serde = { version = "*", features = ["derive"] }
thiserror = "*"
toml = "*"
