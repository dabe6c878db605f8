[package]
name = "routing"
version = "0.1.0"
edition = "2021"
publish = false

[dependencies]
threshold_crypto = "0.4"
rand = "0.7"
rust_sodium = "*"
maidsafe_utilities = "*"

[dev-dependencies]
tiny-keccak = "1"
