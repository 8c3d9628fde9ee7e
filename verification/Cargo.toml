[package]
name = "async_procfs"
version = "0.1.0"
edition = "2021"
publish = false

[dependencies]
async-stream = "0.3.6"
async-trait = "0.1"
chrono = "0.4.45"
futures = "0.3"
nix = { version = "0.31.3", features = ["fs", "dir"] }
procfs-core = "0.18.0"
rustix = { version = "1.1.6", features = ["fs", "param"] }
tokio = { version = "1", features = ["fs", "io-util", "rt", "rt-multi-thread"] }
