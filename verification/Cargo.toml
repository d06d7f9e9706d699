[package]
name = "simple_line"
version = "0.1.0"
edition = "2021"
publish = false

[dependencies]
bytes = "0.4"
futures = "0.1"
tokio-io = "0.1"
tokio-proto = "0.1"
tokio-service = "0.1"
log = "0.3"
env_logger = "0.4"
