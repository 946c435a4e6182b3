[package]
name = "rpc_shield"
version = "0.1.0"
edition = "2021"
publish = false

[dependencies]
csv = "1"
hex = "0.4"
reqwest = { version = "0.11", default-features = false, features = ["json", "rustls-tls"] }
serde = { version = "1", features = ["derive"] }
serde_derive = "1"
serde_json = "1"
tokio = { version = "1", features = ["macros", "rt-multi-thread"] }
warp = { version = "0.3", default-features = false }
web3 = { version = "0.19", default-features = false }
