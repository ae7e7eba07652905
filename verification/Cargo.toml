[package]
name = "appdata_cleaner"
version = "0.1.0"
edition = "2021"
publish = false

[dependencies]
dirs-next = "2"
