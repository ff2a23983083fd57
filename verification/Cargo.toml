[package]
name = "aiutante"
version = "0.1.0"
edition = "2021"
publish = false

[dependencies]
serde_yaml = "=0.9.34"
serde_json = "=1.0.154"
serde = { version = "=1.0.229", features = ["derive"] }
axum = "=0.8.9"
axum-streams = { version = "=0.30.0", features = ["text"] }
futures = "=0.3.34"
tower-http = { version = "=0.7.1", features = ["cors", "trace"] }
tracing-subscriber = { version = "=0.3.23", features = ["env-filter"] }
tokio = { version = "=1.54.1", features = ["full"] }
clap = { version = "=4.6.7", features = ["derive"] }
dotenvy = "=0.15.7"
env_logger = "=0.11.11"
log = "=0.4.34"
schemars = "=1.2.3"
thiserror = "=2.0.21"
rig-core = "=0.31.0"
teloxide = { version = "=0.17.0", features = ["macros"] }
takecell = "=0.1.1"
