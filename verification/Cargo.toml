[package]
name = "cargo_condep"
version = "0.1.0"
edition = "2021"
publish = false

[dependencies]
num_cpus = "*"
clap = { version = "*", features = ["derive"] }
serde = { version = "*", features = ["derive"] }
serde_yaml = "*"
dirs = "*"
termion = "*"
toml = "*"
ssh = "*"
