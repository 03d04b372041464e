[package]
name = "dynamic_mcp"
version = "0.1.0"
edition = "2021"
publish = false

[dependencies]
axum = "=0.8.9"
clap = { version = "=4.6.7", features = ["derive"] }
duration-string = "=0.5.3"
futures-core = "=0.3.34"
regex = "=1.13.1"
reqwest = { version = "=0.12.28", default-features = false, features = ["rustls-tls"] }
rmcp = { version = "0.4", features = ["server", "macros", "transport-io", "transport-sse-server"] }
serde = { version = "=1.0.229", features = ["derive"] }
serde_json = "=1.0.154"
serde_yaml = "=0.9.34"
tinytemplate = "=1.2.1"
tokio = { version = "=1.54.1", features = ["full"] }
tokio-util = "=0.7.20"
tracing = "=0.1.44"
urlencoding = "=2.1.3"
