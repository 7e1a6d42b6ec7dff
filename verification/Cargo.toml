[package]
name = "social_tokens"
version = "0.1.0"
edition = "2021"
publish = false

[dependencies]
near-sdk = "3.1.0"
serde_json = "1.0"
serde_with = "1.9"
wee_alloc = "0.4.5"
