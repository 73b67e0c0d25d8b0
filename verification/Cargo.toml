[package]
name = "faith"
version = "0.1.0"
edition = "2021"
publish = false

[dependencies]
ssri = "*"
reqwest = { version = "*", default-features = false }
reqwest-middleware = "*"
async-trait = "*"
http = "*"
