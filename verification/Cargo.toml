[package]
name = "conquest_core"
version = "0.1.0"
edition = "2021"
publish = false

[dependencies]
rand = "0.8"
spacetimedb = "1"
log = "0.4"
