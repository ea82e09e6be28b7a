[package]
name = "file_resolver"
version = "0.1.0"
edition = "2021"
publish = false

[dependencies]
relative-path = "1"
