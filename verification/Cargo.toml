[package]
name = "liquidglass0"
version = "0.1.0"
edition = "2021"
publish = false

[dependencies]
toml_edit = "=0.25.18"
toml = "=1.1.8"
serde_json = "=1.0.154"
image = { version = "=0.25.10", default-features = false, features = ["png"] }
clap = { version = "=4.6.7", features = ["derive"] }
pollster = "=1.0.1"
wgpu = { version = "=30.0.1", features = ["naga-ir"] }
naga_oil = "=0.23.0"
half = "=2.7.1"
bytemuck = { version = "=1.25.2", features = ["derive"] }
glam = "=0.34.2"
serde = { version = "1", features = ["derive"] }
rmcp = { version = "*", features = ["server", "macros", "transport-io"] }
tokio = { version = "1", features = ["macros", "rt-multi-thread", "io-std"] }
schemars = "*"
