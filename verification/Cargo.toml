[package]
name = "neodiff"
version = "0.1.0"
edition = "2021"
publish = false

[dependencies]
ahash = "0.7"
bit-vec = { version = "0.6", features = ["serde"] }
clap = { version = "3", features = ["derive"] }
hex = "0.4"
mimalloc = { version = "0.1", default-features = false }
packed_struct = "0.10"
serde = { version = "1", features = ["derive"] }
serde_json = "1"
