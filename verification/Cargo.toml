[package]
name = "rsinfer"
version = "0.1.0"
edition = "2021"
publish = false

[dependencies]
bytemuck = { version = "1", features = ["derive"] }
clap = { version = "4", features = ["derive"] }
half = "2"
ndarray = "0.16"
pollster = "0.4"
rand = "0.8"
rayon = "1"
safetensors = "*"
serde = { version = "1", features = ["derive"] }
serde_json = "1"
thiserror = "*"
tokenizers = { version = "*", default-features = false, features = ["fancy-regex"] }
wgpu = "*"
