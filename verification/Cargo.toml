[package]
name = "stream_buffering"
version = "0.1.0"
edition = "2021"
publish = false

[dependencies]
actix-web = { version = "3", default-features = false }
futures = "0.3"
uuid = { version = "0.8", features = ["v4"] }
