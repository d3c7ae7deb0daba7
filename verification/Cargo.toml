[package]
name = "sabi"
version = "0.2.0"
edition = "2021"
publish = false

[dependencies]
time = "0.1"
