[package]
name = "xxhash"
version = "0.1.0"
edition = "2021"
publish = false

[dependencies]
xxhash-c-sys = "*"

[dev-dependencies]
xxhash-rust = { version = "*", features = ["xxh32", "xxh64", "xxh3"] }
