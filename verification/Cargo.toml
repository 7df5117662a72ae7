[package]
name = "zinc"
version = "0.1.0"
edition = "2021"
publish = false

[dependencies]
num-bigint = "=0.2.6"
num-integer = "=0.1.47"
serde_json = { version = "=1.0.154", features = ["preserve_order"] }
bellman_ce = "=0.7.0"
franklin-crypto = "=0.1.0"
failure = "=0.1.8"
log = "=0.4.34"
