[package]
name = "ferric"
version = "0.1.0"
edition = "2021"
publish = false

[dependencies]
embedded-graphics = "0.8.2"
micromath = "2.1.0"
