[package]
name = "hot_or_not_engine"
version = "0.1.0"
edition = "2021"
publish = false

[dependencies]
candid = "*"
ciborium = "*"
ic-cdk = "*"
ic-cdk-macros = "*"
ic-cdk-timers = "*"
ic-stable-structures = "*"
serde = { version = "*", features = ["derive"] }
serde_json = "*"
