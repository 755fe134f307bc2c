[package]
name = "chainx_consensus"
version = "0.1.0"
edition = "2021"
publish = false

[dependencies]
primitive-types = { version = "*", default-features = false }
blake2-rfc = "*"
ed25519-dalek = "*"
parking_lot = "*"
futures = "*"
tokio = { version = "*", features = ["rt", "time"] }
log = "*"
rhododendron = "*"
exit-future = "*"
