[package]
name = "matrix_commander_ng"
version = "1.0.0"
edition = "2021"
publish = false

[dependencies]
chrono = { version = "=0.4.45", default-features = false, features = ["clock", "std"] }
clap = { version = "4.5", default-features = false, features = ["std", "help", "usage", "error-context"] }
colored = "3"
emojis = "0.6"
matrix-sdk = { version = "=0.14.0", default-features = false, features = ["e2e-encryption", "sqlite", "markdown", "rustls-tls"] }
matrix-sdk-base = { version = "=0.14.1", default-features = false }
mime = "=0.3.17"
mime_guess = "=2.0.5"
regex = "=1.13.1"
reqwest = { version = "=0.12.28", default-features = false, features = ["json", "rustls-tls"] }
serde = { version = "=1.0.229", features = ["derive"] }
serde_json = { version = "=1.0.154", features = ["preserve_order"] }
thiserror = "=2.0.21"
tokio = { version = "=1.54.1", features = ["rt-multi-thread", "macros", "time"] }
tracing = "=0.1.44"
tracing-subscriber = { version = "=0.3.23", default-features = false, features = ["fmt", "env-filter"] }
url = "=2.5.8"
urlencoding = "=2.1.3"
