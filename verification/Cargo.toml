[package]
name = "casper_cmd"
version = "0.1.0"
edition = "2021"
publish = false

[dependencies]
casper-types = { version = "=5.0.1", features = ["std-fs-io"] }
clap = "=3.2.25"
serde = { version = "1", features = ["derive"] }
serde_json = "=1.0.151"
