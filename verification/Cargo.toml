[package]
name = "trueshot_server"
version = "0.1.0"
edition = "2021"
publish = false

[dependencies]
aes-gcm = "=0.10.3"
base64 = "=0.22.1"
sha2 = "=0.10.9"
hex = "=0.4.3"
rand = "=0.8.8"
uuid = { version = "=1.29.0", features = ["v4"] }
chrono = "=0.4.45"
serde = { version = "=1.0.229", features = ["derive"] }
serde_json = "=1.0.154"
mime_guess = "=2.0.5"
urlencoding = "=2.1.3"
walkdir = "=2.5.0"
infer = "*"
