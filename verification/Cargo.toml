[package]
name = "gatya_seed"
version = "0.1.0"
edition = "2021"
publish = false

[dependencies]
csv = "1"
hex = "0.4"
hmac = "0.12"
rand = "0.8"
reqwest = { version = "0.12", default-features = false }
serde_json = "1"
sha2 = "0.10"
tokio = { version = "1", features = ["macros", "rt-multi-thread"] }
