[package]
name = "zjtabs"
version = "0.1.0"
edition = "2021"
publish = false

[dependencies]
anstyle = "1"
anyhow = "1"
chrono = "0.4"
console = "0.16"
uuid = { version = "1", features = ["v4"] }
zellij-tile = "0.43"
