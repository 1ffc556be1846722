[package]
name = "rattler_package_streaming"
version = "0.1.0"
edition = "2021"
publish = false

[dependencies]
fs-err = { version = "3", features = ["tokio"] }
futures = "0.3"
futures-util = "0.3"
reqwest = { version = "0.12", default-features = false, features = ["stream"] }
reqwest-middleware = { version = "0.4", default-features = false }
tempfile = "3"
tokio = { version = "1", features = ["fs", "io-util", "rt"] }
tokio-util = { version = "0.7", features = ["io"] }
tracing = "0.1"
url = "2"
zip = { version = "2", default-features = false }
