[package]
name = "mckerel_protocol"
version = "0.1.0"
edition = "2021"
publish = false

[dependencies]
flate2 = "*"
tokio = { version = "*", features = ["net", "rt-multi-thread", "io-util", "macros"] }
