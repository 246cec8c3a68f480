[package]
name = "utemplate"
version = "0.1.0"
edition = "2021"
publish = false

[dependencies]
absolution = "*"
itoa = "1"
quote = "1"
ryu = "1"
