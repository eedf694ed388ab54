[package]
name = "magdl"
version = "0.1.0"
edition = "2021"
publish = false

[dependencies]
anyhow = "1"
byteorder = "1"
bytes = "1"
futures = "0.3"
hex = "0.4"
pin-project = "1"
rand = "0.8"
tokio = { version = "1", features = ["rt-multi-thread", "macros", "net", "time", "sync", "io-util"] }
tokio-util = { version = "0.7", features = ["codec"] }
url = "2"
urlencoding = "2"
