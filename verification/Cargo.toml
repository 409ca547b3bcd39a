[package]
name = "condenser"
version = "0.1.0"
edition = "2021"
publish = false

[dependencies]
serde = { version = "*", features = ["derive"] }
serde_json = "*"
csv = "*"
flate2 = "*"
thiserror = "*"
log = "*"
tokio = { version = "*", features = ["rt", "rt-multi-thread", "macros"] }
async-channel = "*"
