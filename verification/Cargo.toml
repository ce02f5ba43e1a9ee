[package]
name = "oxidy"
version = "0.1.0"
edition = "2021"
publish = false

[dependencies]
futures = "0.3"
num_cpus = "1"
serde = "1"
serde_json = "1"
tokio = { version = "1", features = ["net", "io-util", "rt"] }
