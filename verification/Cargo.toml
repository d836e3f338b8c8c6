[package]
name = "bounded_bytes"
version = "0.1.0"
edition = "2021"
publish = false

[dependencies]
serde = "1"
serde_cbor = "0.11"
