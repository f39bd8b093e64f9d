[package]
name = "ockam_channel"
version = "0.1.0"
edition = "2021"
publish = false

[dependencies]
hex = "0.4"
rand = "0.7"
structopt = "0.3"
