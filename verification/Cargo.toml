[package]
name = "garden"
version = "0.1.0"
edition = "2021"
publish = false

[dependencies]
slug = "*"
edit = "*"
rprompt = "*"
color-eyre = "*"
