[package]
name = "route_filters"
version = "0.1.0"
edition = "2021"
publish = false

[dependencies]
warp = { version = "0.2", features = ["tls"] }
tokio = { version = "0.2", features = ["macros"] }
serde = { version = "1", features = ["derive"] }
serde_json = "1"
pretty_env_logger = "0.4"
