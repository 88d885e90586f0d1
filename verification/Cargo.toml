[package]
name = "nge"
version = "0.1.0"
edition = "2021"
publish = false

[dependencies]
regex = "1"
eyre = "0.6"
getopts = "0.2"
serde = { version = "1", features = ["derive"] }
serde_json = "1"
thiserror = "2"
tracing = "0.1"
tracing-subscriber = "0.3"
