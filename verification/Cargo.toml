[package]
name = "rpc_intercept"
version = "0.1.0"
edition = "2021"
publish = false

[dependencies]
futures = "0.3"
hyper = "0.14"
tonic = "0.8"
tracing = "0.1"
uuid = { version = "1", features = ["v4"] }
