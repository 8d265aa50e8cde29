[package]
name = "rhi"
version = "0.1.0"
edition = "2021"
publish = false

[dependencies]
clap = "2"
futures = "0.1"
hyper = "0.11"
tokio-core = "0.1"
url = "1"
