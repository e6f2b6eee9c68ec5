[package]
name = "tetsu"
version = "0.1.0"
edition = "2021"
publish = false

[dependencies]
anyhow = "*"
clap = { version = "*", features = ["derive"] }
indicatif = "*"
log = "*"
md4 = "*"
memmap = "*"
pretty_env_logger = "*"
ranidb = "*"
rusqlite = { version = "*", features = ["bundled"] }
tokio = { version = "*", features = ["full"] }
