[package]
name = "dow_sentiment_analyzer"
version = "0.1.0"
edition = "2021"
publish = false

[dependencies]
regex = "=1.13.1"
toml = "=0.8.23"
serde = { version = "=1.0.229", features = ["derive"] }
serde_json = "=1.0.154"
html-escape = "=0.2.15"
strsim = "=0.11.1"
time = { version = "=0.3.55", features = ["parsing"] }
sha2 = "=0.10.9"
anyhow = "=1.0.104"
tracing = "=0.1.44"
chrono = { version = "=0.4.45", features = ["serde"] }
once_cell = "=1.21.4"
tokio = { version = "1", features = ["rt-multi-thread", "macros", "time", "fs", "net", "sync"] }
axum = "0.7"
tower-http = { version = "0.5", features = ["cors", "fs"] }
reqwest = { version = "0.12", default-features = false, features = ["json", "rustls-tls"] }
lettre = { version = "0.11", default-features = false, features = ["builder", "smtp-transport", "tokio1", "tokio1-rustls-tls"] }
metrics = "0.23"
metrics-exporter-prometheus = { version = "0.15", default-features = false }
tracing-subscriber = { version = "0.3", features = ["env-filter", "fmt"] }
dotenvy = "0.15"
dashmap = "5"
async-trait = "0.1"
quick-xml = { version = "0.36", features = ["serialize"] }
