[package]
name = "codewalker_cli"
version = "0.1.0"
edition = "2021"
publish = false

[dependencies]
dashmap = "6"
once_cell = "1"
rayon = "1"
regex = "1"
rlua = "0.20"
serde = { version = "1", features = ["derive"] }
thiserror = "1"
tokio = { version = "1", features = ["time"] }
walkdir = "2"
