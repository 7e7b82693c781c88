[package]
name = "stock_stream"
version = "0.1.0"
edition = "2021"
publish = false

[dependencies]
select = "0.6"
rdkafka = "0.36"
tokio = { version = "1", features = ["full"] }
futures = "0.3"
reqwest = { version = "0.12", default-features = false, features = ["rustls-tls"] }
rocket = "0.5"
rocket_ws = "0.1"
clap = { version = "4", features = ["cargo"] }
serde = { version = "1", features = ["derive"] }
serde_json = "1"
