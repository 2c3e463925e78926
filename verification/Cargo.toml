[package]
name = "gerust"
version = "0.1.0"
edition = "2021"
publish = false

[dependencies]
mime = "0.3"
http = "0.1"
hyper = { version = "0.11", features = ["compat"] }
futures = "0.1"
futures-cpupool = "0.1"
tokio-core = "0.1"
bytes = "0.4"
log = "0.4"
