[package]
name = "abs_admin"
version = "0.1.0"
edition = "2021"
publish = false

[dependencies]
jsonwebtoken = "9"
axum = "0.7"
tokio = { version = "1", features = ["full"] }
serde = { version = "1", features = ["derive"] }
serde_json = "1"
serde_yaml = "0.9"
thiserror = "1"
log = "0.4"
log4rs = "1"
rbatis = "4"
rbdc-mysql = "4"
rbs = "4"
tower-http = { version = "0.5", features = ["cors", "fs", "trace"] }
