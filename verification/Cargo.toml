[package]
name = "hub75"
version = "0.1.0"
edition = "2021"
publish = false

[dependencies]
embedded-graphics = "0.6"
embedded-hal = "0.2"
