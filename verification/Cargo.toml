[package]
name = "xfusion_backend"
version = "0.1.0"
edition = "2021"
publish = false

[dependencies]
candid = "0.10"
ed25519-dalek = "2"
ic-cdk = "0.18"
ic-cdk-macros = "0.18"
ic-stable-structures = "0.6"
serde = { version = "1", features = ["derive"] }
