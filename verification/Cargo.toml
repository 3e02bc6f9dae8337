[package]
name = "crossfund"
version = "0.1.0"
edition = "2021"
publish = false

[dependencies]
cosmwasm-std = "=1.5.11"
cosmwasm-schema = "=1.5.11"
cw-storage-plus = "=1.2.0"
cw-utils = "=1.0.3"
cw2 = "=1.1.2"
neutron-sdk = "=0.5.0"
cosmos-sdk-proto = { version = "=0.14.0", default-features = false }
prost = "=0.11.9"
protobuf = "=3.2.0"
serde-json-wasm = "=0.5.2"
