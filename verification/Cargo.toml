[package]
name = "sigma_sentinel"
version = "0.1.0"
edition = "2021"
publish = false

[dependencies]
serde_yaml = "0.9"
walkdir = "2"
argparse = "0.2"
