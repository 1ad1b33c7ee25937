[package]
name = "ugoira_dl"
version = "0.1.0"
edition = "2021"
publish = false

[dependencies]
anyhow = "1"
async-stream = "0.3"
bytes = "1"
clap = { version = "3", features = ["derive"] }
fraction = "*"
futures = "0.3"
lazy_static = "1"
par-stream = { version = "*", features = ["runtime-tokio"] }
reqwest = { version = "0.11", features = ["cookies"] }
serde = { version = "1", features = ["derive"] }
serde_json = "1"
tempfile = "3"
tokio = { version = "1", features = ["fs", "io-util", "macros", "process", "rt-multi-thread"] }
zip = { version = "0.6", default-features = false, features = ["deflate"] }
