[package]
name = "creek"
version = "0.1.0"
edition = "2021"
publish = false

[dependencies]
game-loop = "*"
