[package]
name = "zero2prod"
version = "0.1.0"
edition = "2021"
publish = false

[dependencies]
validator = "=0.21.0"
chrono = "=0.4.45"
serde = { version = "=1.0.229", features = ["derive"] }
actix-web = { version = "=4.15.0", default-features = false, features = ["macros"] }
sqlx = { version = "=0.9.0", default-features = false, features = ["sqlite", "runtime-tokio", "chrono"] }
reqwest = { version = "=0.13.5", default-features = false, features = ["json"] }
config = { version = "=0.15.27", default-features = false, features = ["yaml"] }
tracing = "=0.1.44"
tracing-actix-web = "=0.7.25"
tracing-log = "=0.2.0"
tracing-subscriber = { version = "=0.3.23", features = ["env-filter", "registry", "fmt"] }

[dev-dependencies]
serde_json = "=1.0.151"
