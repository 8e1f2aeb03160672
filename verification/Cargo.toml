[package]
name = "auth_template"
version = "0.1.0"
edition = "2021"
publish = false

[dependencies]
password-auth = "=1.0.0"
uuid = { version = "=1.29.0", features = ["v4"] }
base64 = "=0.22.1"
rand = "=0.8.8"
subtle = "=2.6.1"
