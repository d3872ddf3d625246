[package]
name = "beacon"
version = "0.1.0"
edition = "2021"
publish = false

[dependencies]
blake2 = "*"
rlp = "*"
rand = "*"
clap = "2"
dirs = "*"
yaml-rust = "*"
serde = "*"
serde_derive = "*"
url = "*"
reqwest = { version = "*", default-features = false, features = ["blocking", "json"] }

[dev-dependencies]
rand_xorshift = "*"
