[package]
name = "aaw"
version = "0.1.0"
edition = "2021"
publish = false

[dependencies]
rtrb = "=0.4.1"
serde = { version = "=1.0.229", features = ["derive"] }
thiserror = "=2.0.21"
tokio = { version = "=1.54.1", features = ["sync", "macros", "rt-multi-thread", "time"] }
tracing = "=0.1.44"
tracing-subscriber = { version = "=0.3.23", features = ["env-filter"] }
anyhow = "=1.0.104"
