[package]
name = "kernc"
version = "0.4.0"
edition = "2021"
publish = false

[dependencies]
target-lexicon = "*"
