[package]
name = "loqui"
version = "0.1.0"
edition = "2021"
publish = false

[dependencies]
bytes = "1"
byteorder = "1"
bytesize = "1"
tokio = { version = "1", features = ["net", "rt", "rt-multi-thread", "time", "sync", "macros", "io-util"] }
tokio-util = { version = "0.7", features = ["codec"] }
futures = "0.3"
futures-timer = "3"
backoff = "0.4"
log = "0.4"
serde = "1"
