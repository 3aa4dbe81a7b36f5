[package]
name = "keyword_responder"
version = "0.1.0"
edition = "2021"
publish = false

[dependencies]
dashmap = "5"
rand = "0.8"
lazy_static = "1.4"
futures = "0.3"
hyper = { version = "0.14", features = ["server", "http1", "tcp"] }
serenity = { version = "0.11", default-features = false, features = ["client", "gateway", "model", "rustls_backend"] }
tera = { version = "1", default-features = false }
tokio = { version = "1", features = ["rt", "macros"] }
