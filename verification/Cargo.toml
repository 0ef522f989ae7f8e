[package]
name = "usb-vault"
version = "0.1.0"
edition = "2021"
publish = false

[dependencies]
getrandom = "0.2"
ratatui = "0.26"
crossterm = "0.27"
rpassword = "7"
