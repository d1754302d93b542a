[package]
name = "croniters"
version = "0.1.0"
edition = "2021"
publish = false

[dependencies]
crc32fast = "1"
pyo3 = { version = "0.23", features = ["abi3-py39"] }
rand = "0.9"

[dev-dependencies]
regex = "1"
