[package]
name = "boringtun"
version = "0.1.0"
edition = "2021"
publish = false

[dependencies]
libc = "0.2"
x25519-dalek = { version = "2.0", features = ["reusable_secrets", "static_secrets", "zeroize"] }
zeroize = "1"

[dev-dependencies]
rand_core = { version = "0.6", features = ["getrandom"] }
