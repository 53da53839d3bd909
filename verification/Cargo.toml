[package]
name = "example-restapi"
version = "0.1.0"
edition = "2021"
publish = false

[dependencies]
anyhow = "1"
axum = "0.6"
aya = "0.13"
aya-log = "0.2"
clap = { version = "4", features = ["derive"] }
env_logger = "0.11"
hyper = "0.14"
libc = "0.2"
log = "0.4"
serde = { version = "1", features = ["derive"] }
serde_json = "1"
tokio = { version = "1", features = ["macros", "rt", "rt-multi-thread", "net", "signal"] }
tower = "0.4"
tower-http = { version = "0.4", features = ["cors", "sensitive-headers", "trace", "validate-request", "auth"] }
