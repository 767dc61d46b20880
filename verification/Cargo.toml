[package]
name = "workspace_hasher"
version = "0.1.0"
edition = "2021"
publish = false

[dependencies]
anyhow = "*"
dashmap = "*"
globset = "*"
tracing = "*"
xxhash-rust = { version = "*", features = ["xxh3"] }
