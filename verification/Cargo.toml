[package]
name = "xnode_controller"
version = "0.1.0"
edition = "2021"
publish = false

[dependencies]
futures = "*"
log = "*"
tokio = { version = "*", features = ["rt", "sync", "time"] }
xnode-manager-sdk = "*"
