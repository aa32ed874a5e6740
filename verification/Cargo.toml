[package]
name = "trackmyfi"
version = "0.1.0"
edition = "2021"
publish = false

[dependencies]
base64 = "=0.23.1"
chrono = "=0.4.45"
serde = { version = "=1.0.229", features = ["derive"] }
serde_json = "=1.0.154"
libsql = "=0.10.0"
tokio = { version = "=1.54.1", features = ["sync", "time", "macros", "rt"] }
reqwest = { version = "=0.12.28", default-features = false, features = ["rustls-tls"] }
uuid = { version = "=1.29.1", features = ["v4"] }
object_store = { version = "*", features = ["aws", "gcp"] }
keyring = { version = "*", features = ["apple-native"] }
bytes = "*"
