[package]
name = "mimalloc-rust"
version = "0.1.0"
edition = "2021"
publish = false

[dependencies]
rustix = { version = "1", features = ["mm"] }
