[package]
name = "todo_render"
version = "0.1.0"
edition = "2021"
publish = false

[dependencies]
soroban-sdk = "=22.0.11"
soroban-render-sdk = "=0.1.5"
soroban-chonk = "=1.0.2"

[dev-dependencies]
serde_json = "1"
