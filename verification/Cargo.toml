[package]
name = "geng"
version = "0.1.0"
edition = "2021"
publish = false

[dependencies]
anyhow = "1"
log = "0.4"
once_cell = "1"
bincode = "1"
flate2 = "1"
serde = { version = "1", features = ["derive"] }
clap = { version = "4", features = ["derive"] }
threadpool = "1"
futures = "0.3"
ttf-parser = "0.15"
