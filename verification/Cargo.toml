[package]
name = "youtube-dl-server"
version = "0.1.0"
edition = "2021"
publish = false

[dependencies]
anyhow = "1"
bytelines = "2"
chrono = { version = "0.4", features = ["serde"] }
clap = { version = "4", features = ["derive"] }
directories = "5"
filenamify = "0.1"
handlebars = "4"
nix = { version = "0.26", default-features = false, features = ["signal"] }
notify-rust = "4"
rand = "0.8"
rand_chacha = "0.3"
rocket = { version = "0.5", features = ["json", "uuid"] }
serde = { version = "1", features = ["derive"] }
serde_json = "1"
serde_yaml = "0.9"
sqlx = { version = "0.7", default-features = false, features = ["sqlite", "runtime-tokio", "uuid", "chrono"] }
tokio = { version = "1", features = ["rt-multi-thread", "macros", "process", "fs", "io-util", "sync", "time"] }
tracing = "0.1"
tracing-appender = "0.2"
tracing-subscriber = "0.3"
uuid = { version = "1", features = ["v4", "serde"] }
