[package]
name = "videoserve"
version = "0.1.0"
edition = "2021"
publish = false

[dependencies]
urlencoding = "2"
warp = "0.3"
tokio = { version = "1", features = ["rt-multi-thread", "sync", "fs"] }
tokio-util = { version = "0.7", features = ["codec"] }
