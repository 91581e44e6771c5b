[package]
name = "cmux"
version = "0.1.0"
edition = "2021"
publish = false

[dependencies]
base64 = "*"
serde_json = "*"
gtk4 = { version = "*", features = ["v4_10"] }
glib = "*"
tokio = { version = "*", features = ["rt", "sync"] }
futures-util = "*"
tokio-tungstenite = "*"
uuid = { version = "*", features = ["v4"] }
libc = "*"
