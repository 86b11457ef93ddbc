[package]
name = "peterlits_com_server"
version = "0.1.0"
edition = "2021"
publish = false

[dependencies]
chrono = "0.4"
url = "2"
serde = { version = "1", features = ["derive"] }
serde_json = "1"
hyper = { version = "0.14", features = ["server", "http1", "tcp", "runtime"] }
tokio = { version = "1", features = ["macros", "rt-multi-thread"] }
rusqlite = "*"
log = "0.4"
env_logger = "*"
