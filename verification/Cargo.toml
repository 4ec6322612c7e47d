[package]
name = "deck_creator"
version = "0.1.0"
edition = "2021"
publish = false

[dependencies]
regex = "1"
serde_json = "1"
walkdir = "2"
console = "0.15"
