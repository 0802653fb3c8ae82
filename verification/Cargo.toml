[package]
name = "breakers"
version = "0.1.0"
edition = "2021"
publish = false

[dependencies]
rand = "0.8"
tree-sitter = "0.20"
tree-sitter-breaker = "*"
cpal = "0.15"
hound = "3.5"
dasp_sample = "0.11"
notify = "6"
clap = { version = "4", features = ["derive"] }
env_logger = "0.10"
log = "0.4"
