[package]
name = "debugrs"
version = "0.1.0"
edition = "2021"

[dependencies]
nix = { version = "*", features = ["ptrace", "process", "signal"] }
