[package]
name = "rbac"
version = "0.1.0"
edition = "2021"
publish = false

[dependencies]
anyhow = "1.0"
async-trait = "0.1"
itertools = "0.10"
openssl = "0.10"
thiserror = "1.0"
tokio = { version = "1", features = ["io-util", "net", "rt", "macros"] }
tokio-openssl = "0.6"
tracing = "0.1"
