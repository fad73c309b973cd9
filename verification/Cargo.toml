[package]
name = "project_pilot"
version = "0.1.0"
edition = "2021"
publish = false

[dependencies]
serde_json = "*"
tokio = { version = "*", features = ["rt-multi-thread", "net", "io-util", "sync", "macros"] }
clap = "*"
ctrlc = "*"
