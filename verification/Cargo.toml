[package]
name = "figgie-auto"
version = "0.1.0"
edition = "2021"
publish = false

[dependencies]
kanal = "0.1"
rand = "0.8"
tokio = { version = "1", features = ["rt-multi-thread", "time", "sync", "process", "io-util"] }
