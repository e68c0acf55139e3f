[package]
name = "rye"
version = "0.1.0"
edition = "2021"
publish = false

[dependencies]
anyhow = "1"
clap = { version = "4", features = ["derive"] }
console = "*"
nix = { version = "*", features = ["process"] }
pep508_rs = "*"
