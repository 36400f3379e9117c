[package]
name = "tesseract"
version = "0.1.0"
edition = "2021"
publish = false

[dependencies]
ethers-core = "*"
ckb-merkle-mountain-range = "*"

[dev-dependencies]
parity-scale-codec = "*"
