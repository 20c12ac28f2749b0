[package]
name = "vida"
version = "0.1.0"
edition = "2021"
publish = false

[dependencies]
serde_json = "1"
serde = { version = "1", features = ["derive"] }
anyhow = "1"
clap = { version = "4", default-features = false, features = ["std", "derive", "help", "usage", "error-context"] }
dirs = "*"
fontdb = "*"
futures-util = "0.3"
iced = { version = "0.14", default-features = false, features = ["tiny-skia", "x11", "tokio", "canvas", "advanced"] }
rmcp = { version = "*", features = ["server", "macros", "transport-io"] }
schemars = "1"
tokio = { version = "1", features = ["rt-multi-thread", "macros", "time", "fs", "sync", "net"] }
tokio-tungstenite = "*"
tracing = "0.1"
tracing-subscriber = { version = "0.3", features = ["env-filter"] }
