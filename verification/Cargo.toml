[package]
name = "circuit_field"
version = "0.1.0"
edition = "2021"
publish = false

[dependencies]
anyhow = "1"
indexmap = "*"
snarkvm-console-algorithms = "*"
snarkvm-console-collections = "*"
snarkvm-console-network-environment = "*"
snarkvm-curves = "*"
snarkvm-fields = "*"
snarkvm-utilities = "*"
