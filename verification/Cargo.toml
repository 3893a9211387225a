[package]
name = "tcpserver"
version = "0.1.0"
edition = "2021"
publish = false

[dependencies]
anyhow = "=1.0.104"
serde = { version = "=1.0.229", features = ["derive"] }
serde_json = "=1.0.154"
tokio = { version = "=1.54.1", features = ["full"] }
tracing = "=0.1.44"
tracing-subscriber = { version = "=0.3.23", features = ["env-filter"] }
flate2 = "=1.1.10"
lru = "=0.12.5"
bytes = "=1.12.1"
chrono = "=0.4.45"
rand = "=0.8.8"
dotenv = "=0.15.0"
num_cpus = "=1.17.0"
parking_lot = "=0.12.5"
dashmap = "=5.5.3"
futures = "=0.3.34"
crossbeam = "=0.8.5"
rayon = "=1.12.0"
sysinfo = "0.29"
