[package]
name = "sonic_verifier"
version = "0.1.0"
edition = "2021"
publish = false

[dependencies]
anyhow = "1"
ff = "=0.6.0"
group = "=0.6.0"
gumdrop = "0.8"
memmap = "0.7"
pairing = "=0.16.0"
rand = "0.8"
rand_chacha = "0.3"
rocket = { version = "0.5", features = ["json"] }
serde_json = "1"
sha2 = "=0.10.9"
thiserror = "1"
tracing = "0.1"
