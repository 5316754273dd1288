[package]
name = "dft"
version = "0.1.0"
edition = "2021"
publish = false

[dependencies]
structopt = "0.3"
csv = "1"
json = "0.12"
