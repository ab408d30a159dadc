[package]
name = "eip712_signer"
version = "0.1.0"
edition = "2021"
publish = false

[dependencies]
ethers-core = { version = "*", default-features = false }
tiny-keccak = { version = "*", features = ["keccak"] }
wasm-bindgen = "*"
web-sys = { version = "*", features = ["console"] }

[dev-dependencies]
serde_json = "*"
