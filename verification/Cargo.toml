[package]
name = "shared_bucket"
version = "0.1.0"
edition = "2021"
publish = false

[dependencies]
anyhow = "1"
async-trait = "0.1"
minicbor = { version = "=0.17.1", features = ["std"] }
serde = { version = "1", features = ["derive"] }
serde_json = "1"
wasmbus-rpc = "=0.15.0"
wasmcloud-interface-httpserver = "=0.12.0"
wasmcloud-interface-keyvalue = "=0.12.0"
wasmcloud-interface-logging = "=0.11.0"
wasmcloud-interface-numbergen = "=0.11.0"
