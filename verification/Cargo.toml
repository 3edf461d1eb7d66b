[package]
name = "sequencer"
version = "0.1.0"
edition = "2021"
publish = false

[dependencies]
anyhow = "=1.0.104"
borsh = "=1.8.1"
serde = { version = "=1.0.229", features = ["derive"] }
