[package]
name = "dove"
version = "0.1.0"
edition = "2021"
publish = false

[dependencies]
aes-gcm = "=0.10.3"
anyhow = "=1.0.104"
base64 = "=0.22.1"
clap = { version = "=4.6.7", features = ["derive"] }
getrandom = "=0.2.17"
rusty-s3 = "=0.5.0"
serde = { version = "=1.0.229", features = ["derive"] }
serde_json = "=1.0.154"
toml = { version = "=0.8.23", features = ["preserve_order"] }
ureq = "=2.12.1"
zip = { version = "=2.6.1", default-features = false, features = ["deflate"] }
