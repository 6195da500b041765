[package]
name = "web_socket"
version = "0.1.0"
edition = "2021"
publish = false

[dependencies]
bin-layout = "*"
tokio = { version = "1", default-features = false, features = ["io-util", "net"] }
