[package]
name = "rc_migrator"
version = "0.1.0"
edition = "2021"
publish = false

[dependencies]
log = "0.4"
sp-weights = "=37.0.0"
