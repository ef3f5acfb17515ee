[package]
name = "go_analyzer"
version = "0.1.0"
edition = "2021"
publish = false

[dependencies]
serde = { version = "*", features = ["derive"] }
sgf-parse = "*"
tokio = { version = "*", features = ["rt-multi-thread", "process", "io-util", "time", "macros"] }
toml = "*"
