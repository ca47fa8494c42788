[package]
name = "dsmrlib"
version = "0.1.0"
edition = "2021"
publish = false

[dependencies]
chrono = "0.4"
env_logger = "*"
influx_db_client = "0.5"
log = "0.4"
reqwest = { version = "0.11", default-features = false }
serialport = { version = "3.3", default-features = false }
tokio = { version = "1", features = ["macros", "rt-multi-thread"] }
