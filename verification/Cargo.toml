[package]
name = "modmod"
version = "0.1.0"
edition = "2021"
publish = false

[dependencies]
error-stack = "*"
