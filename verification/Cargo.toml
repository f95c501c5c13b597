[package]
name = "zk_commit"
version = "0.1.0"
edition = "2021"
publish = false

[dependencies]
hex = "0.4"
sha2 = "0.10"
risc0-zkvm = { version = "*", default-features = false, features = ["client"] }
