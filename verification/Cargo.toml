[package]
name = "puzzle_layers"
version = "0.1.0"
edition = "2021"
publish = false

[dependencies]
clvmr = "=0.21.0"
chia-sha2 = "=0.50.0"
chia-puzzles = "=0.20.3"

[dev-dependencies]
clvm-traits = "=0.50.0"
clvm-utils = "=0.50.0"
chia-protocol = "=0.50.0"
