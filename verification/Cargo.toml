[package]
name = "comb"
version = "0.1.0"
edition = "2021"
publish = false

[dependencies]
toml = "0.5"
shellexpand = "3"
fs_extra = "1"
