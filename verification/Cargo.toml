[package]
name = "ekiden_consensus"
version = "0.1.0"
edition = "2021"
publish = false

[dependencies]
io-context = "*"
grpcio = { version = "*", default-features = false }
futures = "*"
