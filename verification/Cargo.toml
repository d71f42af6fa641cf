[package]
name = "styx_core"
version = "0.1.0"
edition = "2021"
publish = false

[dependencies]
sha2 = "0.10"
chacha20poly1305 = "0.10"
base64 = "0.22"
borsh = { version = "1", features = ["derive"] }
