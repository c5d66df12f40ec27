[package]
name = "centrifugo_change_stream"
version = "0.1.0"
edition = "2021"
publish = false

[dependencies]
mongodb = "*"
tokio = { version = "*", features = ["macros", "rt-multi-thread", "time", "net"] }
tokio-util = "*"
axum = "*"
reqwest = { version = "*", default-features = false, features = ["json"] }
serde = { version = "*", features = ["derive"] }
serde_json = "*"
clap = { version = "*", features = ["derive", "env"] }
clap-verbosity-flag = "*"
tracing = "*"
tracing-log = "*"
tracing-subscriber = "*"
signal-hook = "*"
signal-hook-tokio = { version = "*", features = ["futures-v0_3"] }
futures-util = "*"
anyhow = "*"
arcstr = "*"
url = "*"
