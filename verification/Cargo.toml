[package]
name = "mcp_manager"
version = "0.3.0"
edition = "2021"
publish = false

[dependencies]
serde_json = "=1.0.151"
rand = "=0.10.3"
chrono = "=0.4.45"
serde = { version = "=1.0.229", features = ["derive"] }
serde_yaml = "=0.9.34"
tokio = { version = "=1.53.2", features = ["full"] }
axum = "=0.8.9"
reqwest = { version = "=0.13.5", features = ["json"] }
oauth2 = "=5.0.0"
rmcp = { version = "=3.5.1", features = ["client", "transport-child-process", "transport-streamable-http-client-reqwest"] }
tower-http = { version = "=0.7.1", features = ["add-extension"] }
tracing = "=0.1.44"
tracing-subscriber = { version = "=0.3.23", features = ["env-filter"] }
futures = "=0.3.34"
async-trait = "=0.1.92"
