[package]
name = "pm_licht"
version = "0.1.0"
edition = "2021"
publish = false

[dependencies]
anyhow = "1"
clap = { version = "4", features = ["derive"] }
rand = "0.8"
rs_ws281x = "*"
serde_json = "1"
tokio = { version = "1", features = ["net", "io-util", "rt-multi-thread", "macros"] }
