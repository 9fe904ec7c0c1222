[package]
name = "port_adaptor"
version = "0.1.0"
edition = "2021"
publish = false

[dependencies]
anchor-lang = "=0.29.0"
port-variable-rate-lending-instructions = "=0.3.0"
port-staking-instructions = "=0.2.0"
solana-maths = "=0.1.2"
