[package]
name = "pipeline_core"
version = "0.1.0"
edition = "2021"
publish = false

[dependencies]
parquet2 = { version = "*", default-features = false }
serde = { version = "*", features = ["derive"] }
serde_json = "*"
tonic = "*"
bytemuck = "*"
