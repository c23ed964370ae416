[package]
name = "amm_rpc"
version = "0.1.0"
edition = "2021"
publish = false

[dependencies]
alloy = { version = "1", default-features = false, features = ["sol-types"] }
thiserror = "2"
