[package]
name = "dakia"
version = "0.1.0"
edition = "2021"
publish = false

[dependencies]
pingora-http = "*"
bytes = "*"
http = "*"
serde = { version = "*", features = ["derive"] }
async-trait = "*"
pingora = { version = "*", default-features = false }
pingora-proxy = { version = "*", default-features = false }
