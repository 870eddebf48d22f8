[package]
name = "gpu_stats"
version = "0.1.0"
edition = "2021"
publish = false

[dependencies]
nvml-wrapper = "*"

[dev-dependencies]
serde_json = "*"
