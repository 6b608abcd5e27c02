[package]
name = "quickstart_scaling"
version = "0.1.0"
edition = "2021"
publish = false

[dependencies]
candid = "0.7"
ic-cdk = "0.5"
ic-cdk-macros = "0.5"
serde = { version = "1", features = ["derive"] }
serde_bytes = "0.11"
