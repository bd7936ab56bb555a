[package]
name = "mdserve"
version = "0.1.0"
edition = "2021"
publish = false

[dependencies]
pulldown-cmark = "*"
hyper = { version = "1", features = ["http1", "server"] }
hyper-util = { version = "*", features = ["tokio"] }
http-body-util = "*"
tokio = { version = "1", features = ["rt-multi-thread", "macros", "net", "fs", "process"] }
