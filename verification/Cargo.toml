[package]
name = "fresh_air"
version = "0.1.0"
edition = "2021"
publish = false

[dependencies]
base64 = "=0.13.1"
clap = { version = "=3.2.25", features = ["derive"] }
confy = "=0.5.1"
serde = { version = "=1.0.229", features = ["derive"] }
winter-air = "0.4"
winter-math = "0.4"
winter-prover = "0.4"
winter-utils = "0.4"
