[package]
name = "amm_math"
version = "0.1.0"
edition = "2021"
publish = false

[dependencies]
primitive-types = { version = "=0.14.0", default-features = false }
