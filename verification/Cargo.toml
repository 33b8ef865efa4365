[package]
name = "kong_backend"
version = "0.1.0"
edition = "2021"
publish = false

[dependencies]
candid = "=0.10.37"
num-traits = "=0.2.19"
icrc-ledger-types = "=0.2.0"
serde = { version = "=1.0.229", features = ["derive"] }
serde_json = "=1.0.151"
regex = "=1.13.1"
postgres-types = { version = "=0.2.14", features = ["derive", "with-serde_json-1"] }
tokio-postgres = "=0.7.18"
tokio = { version = "=1.53.2", features = ["rt"] }
