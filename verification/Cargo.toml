[package]
name = "asset_sync"
version = "0.1.0"
edition = "2021"
publish = false

[dependencies]
sha2 = "*"
hex = "*"
clap = { version = "*", features = ["derive"] }
candid = "*"

[dev-dependencies]
serde_json = "*"
