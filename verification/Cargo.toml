[package]
name = "softwrap"
version = "0.1.0"
edition = "2021"
publish = false

[dependencies]
unicode-width = "0.2"
ratatui = "0.29"
color-eyre = "0.6"
