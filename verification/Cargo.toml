[package]
name = "enforcer"
version = "0.1.0"
edition = "2021"
publish = false

[dependencies]
glob = "0.3"
num_cpus = "1"
clap = "2"
log = "0.4"
env_logger = "*"
