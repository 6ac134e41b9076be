[package]
name = "watch_dir"
version = "0.1.0"
edition = "2021"
publish = false

[dependencies]
notify = "*"
daemonize-me = "*"
env_logger = "*"
home = "*"
log = "*"
yaml-rust = "*"
