[package]
name = "tmpl8"
version = "0.1.0"
edition = "2021"
publish = false

[dependencies]
anyhow = "=1.0.104"
clap = { version = "=4.6.7", features = ["derive"] }
filetime = "=0.2.29"
regex = "=1.13.1"
serde = { version = "=1.0.229", features = ["derive"] }
serde_json = "=1.0.151"
serde_yaml = "=0.9.34"
similar = { version = "=2.7.0", features = ["bytes"] }
tera = "=1.20.1"
