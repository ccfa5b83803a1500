[package]
name = "portfolio_cms"
version = "0.1.0"
edition = "2021"
publish = false

[dependencies]
ammonia = "=4.2.4"
slugmin = "=1.0.2"
serde = { version = "1", features = ["derive"] }
serde_json = "1"
chrono = "0.4"
image = { version = "=0.25.10", default-features = false, features = ["png", "jpeg"] }
webp = "=0.3.1"
sqlx = { version = "0.8", default-features = false, features = ["postgres", "runtime-tokio"] }
tokio = { version = "1", features = ["rt-multi-thread"] }
