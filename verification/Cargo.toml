[package]
name = "pyrsia"
version = "0.1.0"
edition = "2021"
publish = false

[dependencies]
anyhow = "1"
async-trait = "0.1"
futures = "0.3"
hex = "0.4"
libp2p = { version = "*", default-features = false, features = ["dcutr", "identify", "kad", "macros", "relay", "request-response"] }
log = "0.4"
reqwest = { version = "0.11", default-features = false }
serde = { version = "1", features = ["derive"] }
serde_json = "1"
warp = { version = "0.3", default-features = false }
