[package]
name = "wildlands"
version = "0.1.0"
edition = "2021"
publish = false

[dependencies]
noise = "*"
rand = "0.8"
rand_chacha = "0.3"
image = "*"
crossterm = "*"
ratatui = "*"
