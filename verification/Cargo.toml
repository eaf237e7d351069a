[package]
name = "cargo-ebuild"
version = "0.1.5"
edition = "2021"
publish = false

[dependencies]
cargo = "0.65"
cargo-util = "=0.2.1"
kstring = "=2.0.0"
structopt = "=0.2.18"
time = "=0.1.45"
