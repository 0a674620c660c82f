[package]
name = "microfips"
version = "0.1.0"
edition = "2021"
publish = false

[dependencies]
chacha20poly1305 = { version = "0.10", default-features = false }
heapless = "0.8"
embassy-time = { version = "*", features = ["std"] }
embassy-futures = "*"
embassy-sync = "*"
rand_core = "0.6"
