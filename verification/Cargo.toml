[package]
name = "kv_replica"
version = "0.1.0"
edition = "2021"
publish = false

[dependencies]
anyhow = "1"
nix = { version = "*", features = ["process"] }
rustyline = "*"
tokio = { version = "1", features = ["io-util", "macros", "net", "rt-multi-thread"] }
