[package]
name = "playmod"
version = "0.1.0"
edition = "2021"
publish = false

[dependencies]
modfile = "*"
cpal = "0.13"
eyre = "0.6"
