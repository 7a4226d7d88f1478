[package]
name = "subreader"
version = "0.1.0"
edition = "2021"
publish = false

[dependencies]
uuid = { version = "=1.29.0", features = ["v4"] }
sha2 = "=0.10.9"
encoding_rs = "=0.8.44"
chardetng = "=0.1.17"
quick-xml = "=0.36.2"
zip = { version = "=2.6.1", default-features = false, features = ["deflate"] }
serde = { version = "=1.0.229", features = ["derive"] }
serde_json = "=1.0.154"
tokio = { version = "=1.54.1", features = ["rt-multi-thread", "macros", "sync", "time", "fs", "io-util"] }
reqwest = { version = "=0.12.28", default-features = false, features = ["json"] }
argon2 = { version = "0.5", features = ["std"] }
jsonwebtoken = { version = "9", default-features = false }
