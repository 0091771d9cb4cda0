[package]
name = "router_core"
version = "0.1.0"
edition = "2021"
publish = false

[dependencies]
futures = "=0.3.34"
opentelemetry = "=0.33.0"
opentelemetry-semantic-conventions = { version = "=0.33.0", features = ["semconv_experimental"] }
serde = { version = "=1.0.229", features = ["derive"] }
tokio = { version = "=1.53.2", features = ["sync", "rt", "macros", "time"] }
tower = { version = "=0.5.3", features = ["util"] }
