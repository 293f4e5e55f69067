[package]
name = "serai_cosign"
version = "0.1.0"
edition = "2021"
publish = false

[dependencies]
blake2 = "0.10"
schnorrkel = "0.11"
tokio = { version = "1", features = ["rt", "time", "sync"] }

[dev-dependencies]
borsh = "1"
