[package]
name = "gmc_ingest"
version = "0.1.0"
edition = "2021"
publish = false

[dependencies]
chrono = "0.4"
clap = { version = "3", features = ["derive"] }
futures = "0.3"
hyper = { version = "0.14", features = ["full"] }
influxdb2 = "*"
lazy_static = "1"
pretty_env_logger = "0.4"
tokio = { version = "1", features = ["full"] }
url = "2"
