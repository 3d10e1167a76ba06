[package]
name = "holaplex-hub-analytics"
version = "0.1.0"
edition = "2021"
publish = false

[dependencies]
async-graphql = { version = "7", features = ["chrono", "uuid", "apollo_tracing", "log"] }
async-graphql-poem = "7"
chrono = { version = "=0.4.45", default-features = false, features = ["std"] }
either = { version = "=1.19.0", features = ["serde"] }
poem = "3"
reqwest = { version = "0.12", default-features = false, features = ["json"] }
serde = { version = "=1.0.229", features = ["derive"] }
serde_json = "=1.0.154"
tokio = { version = "1", features = ["rt-multi-thread", "macros"] }
uuid = "=1.29.0"
