[package]
name = "monero_db"
version = "0.1.0"
edition = "2021"
publish = false

[dependencies]
lmdb = "=0.8.0"
lmdb-sys = "=0.8.0"
monero = "=0.22.0"
thiserror = "=1.0.69"

[dev-dependencies]
tempfile = "=3.27.0"
