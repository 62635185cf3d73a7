[package]
name = "furplayer"
version = "0.1.0"
edition = "2021"
publish = false

[dependencies]
mime2ext = "=0.1.54"
rand = "=0.10.3"
serde = { version = "*", features = ["derive"] }
serde_json = "*"
tokio = { version = "*", features = ["rt-multi-thread", "macros", "fs", "sync", "io-util", "time", "process"] }
reqwest = { version = "*", default-features = false, features = ["rustls-tls"] }
dirs = "*"
