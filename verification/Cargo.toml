[package]
name = "speq"
version = "0.1.0"
edition = "2021"
publish = false

[dependencies]
axum = { version = "=0.8.9", features = ["multipart"] }
axum-extra = { version = "=0.12.6", features = ["cookie", "cookie-private"] }
camino = "=1.2.6"
http = "=1.5.0"
inventory = "=0.3.25"
proc-macro2 = "=1.0.107"
quote = "=1.0.47"
serde_derive_internals = "=0.29.1"
serde_qs = { version = "=1.1.3", features = ["axum"] }
structmeta = "=0.3.0"
syn = { version = "=2.0.119", features = ["full"] }
