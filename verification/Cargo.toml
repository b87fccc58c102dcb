[package]
name = "boomerang"
version = "0.1.0"
edition = "2021"
publish = false

[dependencies]
anyhow = "1"
async-trait = "0.1"
libc = "0.2"
serde_json = "1"
testcontainers = "*"
tokio = { version = "1", features = ["time", "rt", "macros"] }
tonic = "*"
uuid = { version = "1", features = ["v4"] }
