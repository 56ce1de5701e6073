[package]
name = "acb"
version = "0.1.0"
edition = "2021"
publish = false

[dependencies]
xxhash-rust = { version = "=0.8.19", features = ["xxh3"] }
base64 = "=0.22.1"
sha2 = "=0.10.9"
rand = "=0.8.8"
tempfile = "=3.27.0"
anyhow = "=1.0.104"
serde = { version = "=1.0.229", features = ["derive"] }
serde_json = "=1.0.154"
regex = "1"
mime_guess = "2"
