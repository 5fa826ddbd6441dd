[package]
name = "nft_pool"
version = "0.1.0"
edition = "2021"
publish = false

[dependencies]
sp-core = "*"
primitive-types = "*"
sp-runtime = "*"
sp-std = "*"
frame-support = "*"
frame-system = "*"
parity-scale-codec = { version = "*", features = ["derive"] }
scale-info = { version = "*", features = ["derive"] }
