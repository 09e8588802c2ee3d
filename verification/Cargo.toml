[package]
name = "jormungandr_core"
version = "0.1.0"
edition = "2021"
publish = false

[dependencies]
serde_json = "1"
hex = "0.4"
rand = "0.8"
tokio = { version = "1", features = ["sync", "rt-multi-thread", "macros"] }
