[package]
name = "rarscanner"
version = "0.1.0"
edition = "2021"
publish = false

[dependencies]
anyhow = "=1.0.104"
chrono = "=0.4.45"
clap = { version = "=4.6.7", features = ["derive"] }
comfy-table = "=7.2.2"
humansize = "=2.1.3"
ignore = "=0.4.33"
md-5 = "0.10"
num_cpus = "=1.17.0"
serde = { version = "1", features = ["derive"] }
serde_json = "1"
sha1 = "0.10"
sha2 = "0.10"
tokio = { version = "=1.54.1", features = ["rt-multi-thread", "macros", "sync"] }
