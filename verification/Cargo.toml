[package]
name = "websocket"
version = "0.1.0"
edition = "2021"
publish = false

[dependencies]
anyhow = "=1.0.104"
bytes = "=1.12.1"
log = "=0.4.35"
protobuf = "=3.7.2"
rustls = { version = "=0.23.46", default-features = false, features = ["ring", "std", "tls12", "logging"] }
sodiumoxide = "=0.2.7"
tokio = { version = "=1.54.1", features = ["net", "time"] }
tokio-native-tls = "=0.3.1"
tokio-rustls = { version = "=0.26.6", default-features = false, features = ["ring", "tls12", "logging"] }
tokio-tungstenite = { version = "=0.30.0", features = ["native-tls", "rustls-tls-native-roots", "rustls-tls-webpki-roots"] }
tungstenite = "=0.30.0"
