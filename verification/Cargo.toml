[package]
name = "tmux_wax"
version = "0.1.0"
edition = "2021"
publish = false

[dependencies]
anyhow = "*"
env_logger = "*"
ssh2 = "*"
structopt = "*"
toml = "*"
