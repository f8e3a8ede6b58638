[package]
name = "carbide_scout"
version = "0.1.0"
edition = "2021"
publish = false

[dependencies]
async-trait = "=0.1.92"
axum = "=0.8.9"
backon = "=1.6.0"
chrono = "=0.4.45"
eyre = "=0.6.14"
futures = "=0.3.34"
http = "=1.5.0"
serde = { version = "=1.0.229", features = ["derive"] }
serde_json = "=1.0.154"
sqlx = { version = "=0.8.6", default-features = false, features = ["runtime-tokio", "postgres", "json", "uuid", "chrono"] }
thiserror = "=2.0.21"
tokio = { version = "=1.54.1", features = ["macros", "process", "rt-multi-thread", "sync", "time", "io-util"] }
tokio-stream = "=0.1.19"
tonic = "=0.14.9"
tracing = "=0.1.44"
tracing-subscriber = { version = "=0.3.23", features = ["env-filter"] }
uuid = { version = "=1.29.0", features = ["v4"] }
wait-timeout = "=0.2.1"
