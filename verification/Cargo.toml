[package]
name = "subtensor_client"
version = "0.1.0"
edition = "2021"
publish = false

[dependencies]
dirs = "=7.0.0"
hex = "=0.4.3"
serde_json = "=1.0.154"
sp-core = "=43.0.0"
thiserror = "=2.0.21"

[dev-dependencies]
parity-scale-codec = "=3.7.5"
