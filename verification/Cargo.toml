[package]
name = "fibridge_proxy"
version = "0.1.0"
edition = "2021"
publish = false

[dependencies]
cc = "=1.0.73"
clap = "=2.34.0"
futures = "=0.1.31"
hyper = "=0.12.36"
omnistreams = "=0.1.0"
rand = "=0.6.5"
serde_json = "=1.0.154"
uuid = { version = "=0.7.4", features = ["v4"] }
warp = { version = "=0.1.23", features = ["tls"] }
