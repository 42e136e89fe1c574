[package]
name = "clashup"
version = "0.1.0"
edition = "2021"
publish = false

[dependencies]
nix = { version = "*", features = ["user"] }
dirs = "*"
structopt = "*"

[dev-dependencies]
tempfile = "*"
