[package]
name = "ecies"
version = "0.1.0"
edition = "2021"
publish = false

[dependencies]
secp256k1 = { version = "*", features = ["recovery", "rand"] }
sha2 = "*"
sha3 = "*"
aes = "*"
rand = "*"
