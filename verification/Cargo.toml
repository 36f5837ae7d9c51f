[package]
name = "bn128"
version = "0.1.0"
edition = "2021"
publish = false

[dependencies]
zeropool-bn = "=0.5.11"
parity-scale-codec = "=3.7.5"
ff_wasm_unknown_unknown = { version = "0.12.2", default-features = false }
frame-support = { version = "*", default-features = false }
pallet-contracts = { version = "*", default-features = false }
sp-core = { version = "*", default-features = false }
sp-runtime = { version = "*", default-features = false }
