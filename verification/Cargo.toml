[package]
name = "zellij-copy-mode"
version = "0.1.0"
edition = "2021"
publish = false

[dependencies]
vte = "0.13"
zellij-tile = "*"
