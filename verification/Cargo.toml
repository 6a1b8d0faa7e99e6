[package]
name = "daily_steps"
version = "0.1.0"
edition = "2021"
publish = false

[dependencies]
anyhow = "=1.0.104"
async-google-apis-common = "=0.3.0"
async-trait = "=0.1.92"
chrono = "=0.4.45"
env_logger = "=0.11.11"
hyper = { version = "=0.14.32", features = ["client", "http1", "http2", "tcp"] }
hyper-rustls = "=0.22.1"
serde = { version = "1", features = ["derive"] }
tokio = { version = "=1.54.1", features = ["macros", "rt-multi-thread"] }
yup-oauth2 = "=5.1.0"
