[package]
name = "zgicabra"
version = "0.1.0"
edition = "2021"
publish = false

[dependencies]
rand = "*"
rand_distr = "*"
midir = "*"
termion = "*"
drawille = "*"
textplots = "*"
rgb = "*"
libc = "*"
lazy_static = "*"
