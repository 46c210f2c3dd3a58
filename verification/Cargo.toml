[package]
name = "fitnab"
version = "0.1.0"
edition = "2021"
publish = false

[dependencies]
async-trait = "=0.1.92"
axum = "=0.7.9"
chrono = "=0.4.45"
hex = "=0.4.3"
quick-xml = "=0.37.5"
rand = "=0.8.8"
regex = "=1.13.1"
scraper = "=0.22.0"
sqlx = { version = "=0.8.6", default-features = false, features = ["runtime-tokio", "sqlite", "migrate"] }
tokio = { version = "=1.54.1", features = ["rt-multi-thread", "macros", "net", "time", "sync"] }
tracing = "=0.1.44"
tracing-subscriber = "=0.3.23"
