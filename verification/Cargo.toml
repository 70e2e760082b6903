[package]
name = "piston_rspy"
version = "0.1.0"
edition = "2021"
publish = false

[dependencies]
piston_rs = "=0.4.3"
reqwest = { version = "=0.11.27", default-features = false, features = ["rustls-tls"] }
