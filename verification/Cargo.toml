[package]
name = "failsafe"
version = "0.1.0"
edition = "2021"
publish = false

[dependencies]
aes-gcm = "=0.10.3"
argon2 = "=0.5.3"
base64 = "=0.22.1"
blake3 = "=1.8.7"
chrono = { version = "=0.4.45", default-features = false, features = ["clock", "std"] }
hex = "=0.4.3"
jsonwebtoken = "=9.3.1"
rand = "=0.8.8"
serde = { version = "=1.0.229", features = ["derive"] }
serde_json = { version = "=1.0.154", features = ["preserve_order"] }
sha2 = "=0.10.9"
totp-rs = { version = "=5.7.2", features = ["gen_secret", "otpauth"] }
uuid = { version = "=1.29.0", features = ["v4"] }
