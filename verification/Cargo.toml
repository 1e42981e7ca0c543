[package]
name = "nifs"
version = "0.1.0"
edition = "2021"
publish = false

[dependencies]
ark-ff = "0.4"
ark-ec = "0.4"
ark-std = "0.4"
ark-pallas = "0.4"
ark-crypto-primitives = { version = "0.4", features = ["sponge"] }
ark-relations = "0.4"
ark-r1cs-std = "0.4"
rand = "0.8"
