[package]
name = "dukascopy_rs"
version = "0.1.0"
edition = "2021"
publish = false

[dependencies]
lzma-rs = "*"
async-trait = "*"
bytes = "*"
futures = "*"
reqwest = { version = "*", default-features = false }
serde = { version = "*", features = ["derive"] }
serde_json = "*"
time = { version = "*", features = ["macros"] }
tokio = { version = "*", features = ["macros", "rt-multi-thread"] }
