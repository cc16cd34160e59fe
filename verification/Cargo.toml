[package]
name = "tilegrabber"
version = "0.1.0"
edition = "2021"
publish = false

[dependencies]
flate2 = "=1.1.10"
encoding_rs = "=0.8.44"
quick-xml = "=0.37.5"
serde_json = "=1.0.154"
rand = "=0.8.8"
chrono = "=0.4.45"
serde = { version = "=1.0.229", features = ["derive"] }
anyhow = "=1.0.104"
roxmltree = "=0.20.0"
zip = { version = "=2.6.1", default-features = false, features = ["deflate"] }
url = "=2.5.8"
pmtiles = { version = "*", default-features = false }
