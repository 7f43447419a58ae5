[package]
name = "dex"
version = "0.1.0"
edition = "2021"
publish = false

[dependencies]
scroll = "0.9"
memmap = "0.7"
