[package]
name = "barexp"
version = "1.1.0"
edition = "2021"
publish = false

[dependencies]
walkdir = "2"
syn = { version = "2", features = ["full"] }
quote = "1"
proc-macro2 = "1"
inventory = "0.3"
once_cell = "1"
