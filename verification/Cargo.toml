[package]
name = "open_sse"
version = "0.1.0"
edition = "2021"
publish = false

[dependencies]
actix-web = { version = "4", default-features = false, features = ["macros"] }
actix-cors = "0.6"
tokio = { version = "1", features = ["rt-multi-thread", "macros", "sync", "time", "signal"] }
tokio-stream = "0.1"
futures = "0.3"
redis = { version = "0.23", features = ["tokio-comp"] }
config = { version = "0.11", default-features = false, features = ["toml"] }
nix = "0.23"
time = { version = "0.3", features = ["formatting"] }
serde = { version = "1", features = ["derive"] }
tracing = "0.1"
tracing-subscriber = { version = "0.3", features = ["env-filter", "registry"] }
tracing-actix-web = "0.7"
tracing-bunyan-formatter = "0.3"
