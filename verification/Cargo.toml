[package]
name = "mbn"
version = "0.1.0"
edition = "2021"
publish = false

[dependencies]
tokio = { version = "*", default-features = false, features = ["fs", "io-util"] }
futures = "*"
databento = "*"
