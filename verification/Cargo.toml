[package]
name = "exchanger"
version = "0.1.0"
edition = "2021"
publish = false

[dependencies]
bytes = "1"
chrono = "0.4"
fern = { version = "0.7", features = ["colored", "date-based"] }
http = "1"
http-body-util = "0.1"
hyper = { version = "1", features = ["http1", "server", "client"] }
log = "0.4"
pin-project-lite = "0.2"
rustls = "0.23"
rustls-native-certs = "0.7"
tokio = { version = "1", features = ["rt-multi-thread", "net", "macros", "io-util"] }
tokio-rustls = "0.26"

[dev-dependencies]
serde_json = "1"
