[package]
name = "http-body-util"
version = "0.1.3"
edition = "2021"
publish = false

[dependencies]
bytes = "1"
http = "1"
http-body = "1"

[dev-dependencies]
futures-util = "0.3"
