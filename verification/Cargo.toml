[package]
name = "gossip_p2p"
version = "0.1.0"
edition = "2021"
publish = false

[dependencies]
rand = "0.8"
bincode = "1.3"
serde = { version = "1", features = ["derive"] }
message-io = { version = "0.18", default-features = false, features = ["tcp"] }
