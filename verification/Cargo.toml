[package]
name = "rsms"
version = "0.1.0"
edition = "2021"
publish = false

[dependencies]
async-trait = "0.1"
bytes = "1"
dashmap = "6"
num_enum = "0.7"
thiserror = "1"
tokio = { version = "1", features = ["full"] }
tracing = "0.1"
