[package]
name = "jury"
version = "0.1.0"
edition = "2021"
publish = false

[dependencies]
rand = "=0.8.8"
csv = "=1.4.0"
statrs = "=0.16.1"
mongodb = "=2.8.2"
bson = { version = "=2.15.0", features = ["chrono-0_4"] }
chrono = "=0.4.45"
tokio = { version = "=1.53.2", features = ["full"] }
futures = "=0.3.34"
dotenv = "=0.15.0"
serde = { version = "=1.0.229", features = ["derive"] }
