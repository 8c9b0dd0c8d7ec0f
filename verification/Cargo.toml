[package]
name = "ruplace"
version = "0.1.0"
edition = "2021"
publish = false

[dependencies]
clap = "4"
png = "0.17"
rand = "0.8"
reqwest = { version = "0.12", default-features = false, features = ["blocking", "rustls-tls"] }
rpassword = "7"
serde_json = "1"
