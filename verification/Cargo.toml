[package]
name = "liblogger"
version = "0.1.0"
edition = "2021"
publish = false

[dependencies]
chrono = "*"
once_cell = "*"
serde = { version = "*", features = ["derive"] }
toml = "*"
tokio = { version = "*", features = ["rt-multi-thread", "sync", "time", "macros"] }
reqwest = { version = "*", default-features = false, features = ["blocking"] }
