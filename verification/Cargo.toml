[package]
name = "gitter"
version = "0.1.0"
edition = "2021"
publish = false

[dependencies]
anyhow = "1"
async-std = "1"
directories = "*"
flate2 = "1"
http-types = "2"
indicatif = "*"
regex-syntax = "*"
serde = { version = "1", features = ["derive"] }
structopt = "0.3"
surf = "2"
tar = "0.4"
thiserror = "1"

[dev-dependencies]
regex = "1"
