[package]
name = "um"
version = "0.1.0"
edition = "2021"
publish = false

[dependencies]
bincode = "1"
byteorder = "1"
rocket = "0.5"
serde = { version = "1", features = ["derive"] }
