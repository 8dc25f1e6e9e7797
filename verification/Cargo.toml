[package]
name = "braille_table"
version = "0.1.0"
edition = "2021"

[dependencies]
nom-unicode = "*"
