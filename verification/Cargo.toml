[package]
name = "estash"
version = "0.1.0"
edition = "2021"
publish = false

[dependencies]
blake3 = "1"
chacha20poly1305 = "0.9"
crypto_box = "0.7"
dirs = "4"
fltk = "1"
rand = "0.8"
rand_hc = "0.3"
rust-argon2 = "1.0"
serde = { version = "1", features = ["derive"] }
serde_json = "1"
sled = "0.34"
zeroize = "1"
