[package]
name = "databroker_cli"
version = "0.1.0"
edition = "2021"
publish = false

[dependencies]
ansi_term = "0.12"
linefeed = "0.6"
prost-types = "0.11"
regex = "1"
tokio = { version = "1", features = ["macros", "rt-multi-thread", "sync", "time"] }
tokio-stream = "0.1"
tonic = { version = "0.9", default-features = false }
