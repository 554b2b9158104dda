[package]
name = "steward"
version = "0.1.0"
edition = "2021"
publish = false

[dependencies]
redis = { version = "=1.7.1", features = ["r2d2"] }
r2d2 = "=0.8.10"
rayon = "=1.12.0"
tokio = { version = "=1.53.2", features = ["sync", "rt-multi-thread", "time", "macros", "net"] }
serde = { version = "=1.0.229", features = ["derive"] }
serde_json = "=1.0.151"
reqwest = { version = "=0.13.5", default-features = false, features = ["json"] }
tonic = "=0.14.6"
tonic-prost = "=0.14.6"
prost = "=0.14.4"
socket2 = "=0.6.5"
tokio-stream = { version = "=0.1.19", features = ["net"] }
tracing = "=0.1.44"
tracing-subscriber = { version = "=0.3.23", features = ["env-filter", "fmt", "json"] }
config = "=0.15.27"
