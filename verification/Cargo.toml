[package]
name = "phrase_parser"
version = "0.1.0"
edition = "2021"
publish = false

[dependencies]
crawdad = "*"
kanji = "*"
serde = { version = "*", features = ["derive"] }
serde_cbor = "*"
