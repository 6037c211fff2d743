[package]
name = "ballista_bench"
version = "0.1.0"
edition = "2021"
publish = false

[dependencies]
datafusion = { version = "=55.2.0", default-features = false }
tokio = { version = "1", features = ["rt-multi-thread"] }
futures = { version = "0.3", default-features = false, features = ["std"] }
tempfile = { version = "3", default-features = false }
prost = { version = "*", default-features = false }
