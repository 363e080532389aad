[package]
name = "morpho-v2-reallocator"
version = "0.1.0"
edition = "2021"
publish = false

[dependencies]
alloy = { version = "=1.8.3", default-features = false, features = ["std", "sol-types"] }
async-trait = "=0.1.92"
axum = { version = "=0.8.9", default-features = false, features = ["http1", "json", "tokio"] }
clap = { version = "=4.6.7", default-features = false, features = ["derive", "std", "help", "usage", "error-context"] }
dotenvy = "=0.15.7"
futures = { version = "=0.3.34", default-features = false, features = ["std", "async-await"] }
humantime-serde = "=1.1.1"
prometheus-client = "=0.25.2"
reqwest = { version = "=0.12.28", default-features = false, features = ["json"] }
sd-notify = "=0.5.0"
secrecy = "0.10"
serde = { version = "=1.0.229", features = ["derive"] }
serde_json = "=1.0.154"
serde-saphyr = { version = "=2.0.0", default-features = false, features = ["deserialize"] }
thiserror = "=2.0.21"
time = { version = "=0.3.55", default-features = false, features = ["std"] }
tokio = { version = "=1.54.1", default-features = false, features = ["rt-multi-thread", "macros", "time", "sync", "net", "signal"] }
tracing = { version = "=0.1.44", default-features = false, features = ["std"] }
tracing-subscriber = { version = "=0.3.23", default-features = false, features = ["env-filter", "fmt", "std"] }
url = "=2.5.8"
