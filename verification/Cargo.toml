[package]
name = "transactions"
version = "0.1.0"
edition = "2021"
publish = false

[dependencies]
anyhow = "1"
async-trait = "0.1"
clap = { version = "4", features = ["derive"] }
csv-async = { version = "1", features = ["tokio"] }
futures = "0.3"
rocksdb = "*"
rust_decimal = { version = "1", features = ["serde-with-str"] }
serde = { version = "1", features = ["derive"] }
sled = "0.34"
tokio = { version = "1", features = ["full"] }

[dev-dependencies]
tempfile = "3"
