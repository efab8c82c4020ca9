[package]
name = "pkarr"
version = "0.1.0"
edition = "2021"
publish = false

[dependencies]
ed25519-dalek = { version = "*", features = ["rand_core"] }
rand = "*"
simple-dns = "*"
bytes = "*"
reqwest = { version = "*", default-features = false, features = ["blocking"] }
tracing = "*"
