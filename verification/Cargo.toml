[package]
name = "swiboe"
version = "0.1.0"
edition = "2021"
publish = false

[dependencies]
mio = { version = "1", features = ["os-poll", "net"] }
serde = { version = "1", features = ["derive"] }
serde_json = "1"
threadpool = "1"
time = "0.1"
unix_socket = "0.5"
uuid = { version = "1", features = ["v4"] }
