[package]
name = "quadratic_democracy"
version = "0.1.0"
edition = "2021"
publish = false

[dependencies]
sp-runtime = "*"
parity-scale-codec = { version = "*", features = ["derive"] }
serde = { version = "*", features = ["derive"] }
