[package]
name = "redscript_doc"
version = "0.1.0"
edition = "2021"
publish = false

[dependencies]
askama = "*"
gumdrop = "*"
log = "*"
simplelog = "*"
