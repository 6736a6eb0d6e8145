[package]
name = "pool"
version = "0.1.0"
edition = "2021"
publish = false

[dependencies]
toml = "*"
tokio = { version = "*", features = ["fs"] }
once_cell = "*"
thiserror = "*"
