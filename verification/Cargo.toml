[package]
name = "passtrain"
version = "0.1.0"
edition = "2021"
publish = false

[dependencies]
rand = "0.8"
crossterm = "0.25"
inquire = "0.6"
