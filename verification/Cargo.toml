[package]
name = "credential_registry"
version = "0.1.0"
edition = "2021"
publish = false

[dependencies]
soroban-sdk = "=22.0.11"
soroban-env-host = "=22.1.3"
wee_alloc = "=0.4.5"

[dev-dependencies]
ed25519-dalek = "=2.2.0"
