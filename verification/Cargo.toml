[package]
name = "hantracker"
version = "0.1.0"
edition = "2021"
publish = false

[dependencies]
hard-xml = "*"
flate2 = "1"
sha2 = "0.10"
reqwest = { version = "0.12", default-features = false, features = ["blocking"] }
thiserror = "*"
tracing = "0.1"
tracing-subscriber = "0.3"
directories = "*"
anyhow = "1"
constcat = "*"
rand = "0.9"
relm4 = { version = "0.9", features = ["libadwaita"] }
sqlx = { version = "0.8", features = ["sqlite", "runtime-tokio", "macros", "migrate"] }
