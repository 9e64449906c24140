[package]
name = "wasm_bound"
version = "0.1.0"
edition = "2021"
publish = false

[dependencies]
walrus = "=0.4.0"
id-arena = "=2.3.0"
rayon = "=1.12.0"
failure = "=0.1.8"
clap = "=2.34.0"

[dev-dependencies]
wasmi = "=2.0.0"
wat = "=1.262.0"
