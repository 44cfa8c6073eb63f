[package]
name = "fractouille"
version = "0.1.0"
edition = "2021"
publish = false

[dependencies]
color-eyre = "0.6"
image = "0.25"
ratatui = "0.29"
