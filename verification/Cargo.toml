[package]
name = "telnet"
version = "0.1.0"
edition = "2021"
publish = false

[dependencies]
tokio = { version = "*", features = ["rt", "io-util", "macros", "sync"] }
tokio-util = { version = "*", features = ["codec"] }
futures = "*"
bytes = "*"
async-trait = "*"
tracing = "*"
thiserror = "*"
