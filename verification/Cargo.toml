[package]
name = "bw_config"
version = "0.1.0"
edition = "2021"
publish = false

[dependencies]
base64 = "*"
bytes = "*"
ring = "*"
tun-tap = { version = "*", default-features = false }
untrusted = "*"
toml = "*"
