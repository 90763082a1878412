[package]
name = "dns_gate"
version = "0.1.0"
edition = "2021"
publish = false

[dependencies]
cedarwood = "0.4"
hickory-proto = "0.24"
tokio = { version = "1", features = ["rt-multi-thread", "net", "sync", "macros", "time"] }
tokio-util = "0.7"
async-trait = "0.1"
