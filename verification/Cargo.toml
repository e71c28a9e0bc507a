[package]
name = "osai"
version = "0.1.0"
edition = "2021"
publish = false

[dependencies]
dashmap = "*"
unicode-normalization = "*"
walkdir = "*"
