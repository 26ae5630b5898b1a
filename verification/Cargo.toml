[package]
name = "spend_broadcaster"
version = "0.1.0"
edition = "2021"
publish = false

[dependencies]
jsonrpc = "0.12"
log = "0.4"
tokio = { version = "1", features = ["time", "rt", "macros"] }
tokio-postgres = "0.7"
