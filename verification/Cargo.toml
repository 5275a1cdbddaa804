[package]
name = "msgbus"
version = "0.1.0"
edition = "2021"
publish = false

[dependencies]
async-trait = "=0.1.92"
base64 = "=0.22.1"
clap = { version = "=4.6.7", features = ["derive", "env"] }
futures-core = "=0.3.34"
prost = "=0.14.4"
redb = "=3.1.3"
rusqlite = { version = "=0.41.1", features = ["bundled"] }
serde = { version = "=1.0.229", features = ["derive"] }
serde_json = "=1.0.154"
thiserror = "=2.0.21"
tokio = { version = "=1.54.1", features = ["macros", "rt-multi-thread", "signal", "sync", "time", "net"] }
tokio-stream = { version = "=0.1.19", features = ["sync", "net"] }
tonic = { version = "=0.14.9", features = ["tls-ring"] }
tonic-prost = "=0.14.9"
tracing = "=0.1.44"
tracing-subscriber = { version = "=0.3.23", features = ["env-filter"] }
uuid = { version = "=1.29.0", features = ["v4"] }
